//! The systems that move items: picking up, using, dropping, taking off
//! and drinking.  Each reads the intents of one kind in the order of the
//! entities that hold them and empties that store at the end.

use crate::components::{
    CombatStats, Equipped, InBackpack, Name, WantsToDrinkPotion, WantsToDropItem,
    WantsToPickupItem, WantsToRemoveItem, WantsToUseItem,
};
use crate::gamelog::{decimal, decimal_string};
use crate::geometry::Position;
use crate::item_use::{lemma_use_appends, name_text, use_item, use_item_spec, Effects};
use crate::store::Entity;
use crate::world::{name_of, Kinds, World};
use vstd::prelude::*;
use vstd::string::*;

verus! {

/// The message for picking up the item `item`.
pub open spec fn pickup_message(item: Seq<char>) -> Seq<char> {
    "You pick up the "@ + item + "."@
}

/// The message for dropping the item `item`.
pub open spec fn drop_message(item: Seq<char>) -> Seq<char> {
    "You drop the "@ + item + "."@
}

/// The message for drinking the potion `potion`, which heals `amount`.
pub open spec fn drink_message(potion: Seq<char>, amount: int) -> Seq<char> {
    "You drink the "@ + potion + ", healing "@ + decimal(amount) + " hp."@
}

/// Writes the message for picking up `item`.
pub fn pickup_text(item: &str) -> (s: String)
    ensures
        s@ == pickup_message(item@),
{
    let mut s = String::from_str("You pick up the ");
    s.append(item);
    s.append(".");
    s
}

/// Writes the message for dropping `item`.
pub fn drop_text(item: &str) -> (s: String)
    ensures
        s@ == drop_message(item@),
{
    let mut s = String::from_str("You drop the ");
    s.append(item);
    s.append(".");
    s
}

/// Writes the message for drinking `potion`.
pub fn drink_text(potion: &str, amount: i32) -> (s: String)
    ensures
        s@ == drink_message(potion@, amount as int),
{
    let mut s = String::from_str("You drink the ");
    s.append(potion);
    s.append(", healing ");
    s.append(decimal_string(amount as i128).as_str());
    s.append(" hp.");
    s
}

/// Where things lie and who carries or wears what.
pub struct Holdings {
    pub positions: Map<Entity, Position>,
    pub backpack: Map<Entity, InBackpack>,
    pub equipped: Map<Entity, Equipped>,
}

impl World {
    /// Where things lie and who carries or wears what in this world.
    pub open spec fn holdings(&self) -> Holdings {
        Holdings {
            positions: self.positions@,
            backpack: self.in_backpack@,
            equipped: self.equipped@,
        }
    }
}

/// `item` leaves the ground and goes to the pack of `collector`.
pub open spec fn pick_up(h: Holdings, item: Entity, collector: Entity) -> Holdings {
    Holdings {
        positions: h.positions.remove(item),
        backpack: h.backpack.insert(item, InBackpack { owner: collector }),
        equipped: h.equipped,
    }
}

/// `item` leaves its pack and lies where `dropper` stands.  A dropper
/// without a place drops nothing.
pub open spec fn put_down(h: Holdings, item: Entity, dropper: Entity) -> Holdings {
    if h.positions.dom().contains(dropper) {
        Holdings {
            positions: h.positions.insert(item, h.positions[dropper]),
            backpack: h.backpack.remove(item),
            equipped: h.equipped,
        }
    } else {
        h
    }
}

/// `item` comes off and goes to the pack of `wearer`.
pub open spec fn take_off(h: Holdings, item: Entity, wearer: Entity) -> Holdings {
    Holdings {
        positions: h.positions,
        backpack: h.backpack.insert(item, InBackpack { owner: wearer }),
        equipped: h.equipped.remove(item),
    }
}

/// The holdings after the pickups of the first `n` entities.
pub open spec fn collect_all(h: Holdings, intents: Map<Entity, WantsToPickupItem>, n: nat)
    -> Holdings
    decreases n,
{
    if n == 0 {
        h
    } else {
        let before = collect_all(h, intents, (n - 1) as nat);
        let e = Entity { id: (n - 1) as usize };
        if intents.dom().contains(e) {
            pick_up(before, intents[e].item, intents[e].collected_by)
        } else {
            before
        }
    }
}

/// The messages for the pickups of the first `n` entities: one for each
/// pickup by `player`.
pub open spec fn collect_log(
    names: Map<Entity, Name>,
    player: Entity,
    intents: Map<Entity, WantsToPickupItem>,
    n: nat,
) -> Seq<Seq<char>>
    decreases n,
{
    if n == 0 {
        Seq::empty()
    } else {
        let before = collect_log(names, player, intents, (n - 1) as nat);
        let e = Entity { id: (n - 1) as usize };
        if intents.dom().contains(e) && intents[e].collected_by == player {
            before.push(pickup_message(name_of(names, intents[e].item)))
        } else {
            before
        }
    }
}

/// The holdings after the drops of the first `n` entities.
pub open spec fn drop_all(h: Holdings, intents: Map<Entity, WantsToDropItem>, n: nat) -> Holdings
    decreases n,
{
    if n == 0 {
        h
    } else {
        let before = drop_all(h, intents, (n - 1) as nat);
        let e = Entity { id: (n - 1) as usize };
        if intents.dom().contains(e) {
            put_down(before, intents[e].item, e)
        } else {
            before
        }
    }
}

/// The messages for the drops of the first `n` entities: one for each
/// drop that `player` makes from a place.
pub open spec fn drop_log(
    names: Map<Entity, Name>,
    player: Entity,
    h: Holdings,
    intents: Map<Entity, WantsToDropItem>,
    n: nat,
) -> Seq<Seq<char>>
    decreases n,
{
    if n == 0 {
        Seq::empty()
    } else {
        let before = drop_log(names, player, h, intents, (n - 1) as nat);
        let e = Entity { id: (n - 1) as usize };
        if intents.dom().contains(e) && e == player && drop_all(
            h,
            intents,
            (n - 1) as nat,
        ).positions.dom().contains(e) {
            before.push(drop_message(name_of(names, intents[e].item)))
        } else {
            before
        }
    }
}

/// The holdings after the first `n` entities took off what they wanted to.
pub open spec fn remove_all(h: Holdings, intents: Map<Entity, WantsToRemoveItem>, n: nat)
    -> Holdings
    decreases n,
{
    if n == 0 {
        h
    } else {
        let before = remove_all(h, intents, (n - 1) as nat);
        let e = Entity { id: (n - 1) as usize };
        if intents.dom().contains(e) {
            take_off(before, intents[e].item, e)
        } else {
            before
        }
    }
}

/// What the uses of the first `n` entities make of `fx`.
pub open spec fn use_all(
    kinds: Kinds,
    content: Seq<Vec<Entity>>,
    player: Entity,
    fx: Effects,
    intents: Map<Entity, WantsToUseItem>,
    n: nat,
) -> Effects
    decreases n,
{
    if n == 0 {
        fx
    } else {
        let before = use_all(kinds, content, player, fx, intents, (n - 1) as nat);
        let e = Entity { id: (n - 1) as usize };
        if intents.dom().contains(e) {
            use_item_spec(kinds, content, player, before, e, intents[e])
        } else {
            before
        }
    }
}

/// `after` is `before` with every pickup carried out.
pub open spec fn collected(before: &World, after: &World) -> bool {
    let n = before.entities.alive.len() as nat;
    &&& after.holdings() == collect_all(before.holdings(), before.intents.pickup@, n)
    &&& after.log@ == before.log@ + collect_log(
        before.kinds.names@,
        before.player,
        before.intents.pickup@,
        n,
    )
    &&& after.intents.pickup@ == Map::<Entity, WantsToPickupItem>::empty()
    &&& *after == (World {
        positions: after.positions,
        in_backpack: after.in_backpack,
        log: after.log,
        intents: crate::world::Intents { pickup: after.intents.pickup, ..before.intents },
        ..*before
    })
}

/// Carries out the pickups.
pub struct ItemCollectionSystem {}

impl ItemCollectionSystem {
    /// Carries out every pickup, in the order of those who want one.
    pub fn run(&mut self, world: &mut World)
        ensures
            collected(old(world), final(world)),
            old(world).wf() ==> final(world).wf(),
    {
        let bound = world.entities.bound();
        let player = world.player;
        let mut id: usize = 0;
        assert(world.log@ =~= old(world).log@ + Seq::<Seq<char>>::empty());
        while id < bound
            invariant
                0 <= id <= bound == old(world).entities.alive.len(),
                old(world).wf() ==> world.wf(),
                player == old(world).player,
                world.holdings() == collect_all(
                    old(world).holdings(),
                    old(world).intents.pickup@,
                    id as nat,
                ),
                world.log@ == old(world).log@ + collect_log(
                    old(world).kinds.names@,
                    player,
                    old(world).intents.pickup@,
                    id as nat,
                ),
                *world == (World {
                    positions: world.positions,
                    in_backpack: world.in_backpack,
                    log: world.log,
                    ..*old(world)
                }),
            decreases bound - id,
        {
            let e = Entity { id };
            let intent = match world.intents.pickup.get(e) {
                Some(p) => Some(*p),
                None => None,
            };
            match intent {
                Some(pickup) => {
                    world.positions.remove(pickup.item);
                    world.in_backpack.insert(pickup.item, InBackpack { owner: pickup.collected_by });
                    if pickup.collected_by == player {
                        let name = name_text(&world.kinds.names, pickup.item);
                        let ghost so_far = collect_log(
                            old(world).kinds.names@,
                            player,
                            old(world).intents.pickup@,
                            id as nat,
                        );
                        world.log.push(pickup_text(name.as_str()));
                        assert(world.log@ =~= old(world).log@ + so_far.push(
                            pickup_message(name_of(old(world).kinds.names@, pickup.item)),
                        ));
                    }
                },
                None => {},
            }
            id = id + 1;
        }
        world.intents.pickup.clear();
    }
}

/// `after` is `before` with every drop carried out.
pub open spec fn dropped(before: &World, after: &World) -> bool {
    let n = before.entities.alive.len() as nat;
    &&& after.holdings() == drop_all(before.holdings(), before.intents.drop_item@, n)
    &&& after.log@ == before.log@ + drop_log(
        before.kinds.names@,
        before.player,
        before.holdings(),
        before.intents.drop_item@,
        n,
    )
    &&& after.intents.drop_item@ == Map::<Entity, WantsToDropItem>::empty()
    &&& *after == (World {
        positions: after.positions,
        in_backpack: after.in_backpack,
        log: after.log,
        intents: crate::world::Intents { drop_item: after.intents.drop_item, ..before.intents },
        ..*before
    })
}

/// Carries out the drops.
pub struct ItemDropSystem {}

impl ItemDropSystem {
    /// Carries out every drop, in the order of the droppers.
    pub fn run(&mut self, world: &mut World)
        ensures
            dropped(old(world), final(world)),
            old(world).wf() ==> final(world).wf(),
    {
        let bound = world.entities.bound();
        let player = world.player;
        let mut id: usize = 0;
        assert(world.log@ =~= old(world).log@ + Seq::<Seq<char>>::empty());
        while id < bound
            invariant
                0 <= id <= bound == old(world).entities.alive.len(),
                old(world).wf() ==> world.wf(),
                player == old(world).player,
                world.holdings() == drop_all(
                    old(world).holdings(),
                    old(world).intents.drop_item@,
                    id as nat,
                ),
                world.log@ == old(world).log@ + drop_log(
                    old(world).kinds.names@,
                    player,
                    old(world).holdings(),
                    old(world).intents.drop_item@,
                    id as nat,
                ),
                *world == (World {
                    positions: world.positions,
                    in_backpack: world.in_backpack,
                    log: world.log,
                    ..*old(world)
                }),
            decreases bound - id,
        {
            let e = Entity { id };
            let intent = match world.intents.drop_item.get(e) {
                Some(d) => Some(*d),
                None => None,
            };
            match intent {
                Some(wtd) => {
                    let place = match world.positions.get(e) {
                        Some(p) => Some(*p),
                        None => None,
                    };
                    match place {
                        Some(to_drop_pos) => {
                            world.in_backpack.remove(wtd.item);
                            world.positions.insert(wtd.item, to_drop_pos);
                            if e == player {
                                let name = name_text(&world.kinds.names, wtd.item);
                                let ghost so_far = drop_log(
                                    old(world).kinds.names@,
                                    player,
                                    old(world).holdings(),
                                    old(world).intents.drop_item@,
                                    id as nat,
                                );
                                world.log.push(drop_text(name.as_str()));
                                assert(world.log@ =~= old(world).log@ + so_far.push(
                                    drop_message(name_of(old(world).kinds.names@, wtd.item)),
                                ));
                            }
                        },
                        None => {},
                    }
                },
                None => {},
            }
            id = id + 1;
        }
        world.intents.drop_item.clear();
    }
}

/// `after` is `before` with everything taken off that was to come off.
pub open spec fn taken_off(before: &World, after: &World) -> bool {
    let n = before.entities.alive.len() as nat;
    &&& after.holdings() == remove_all(before.holdings(), before.intents.remove_item@, n)
    &&& after.intents.remove_item@ == Map::<Entity, WantsToRemoveItem>::empty()
    &&& *after == (World {
        equipped: after.equipped,
        in_backpack: after.in_backpack,
        intents: crate::world::Intents {
            remove_item: after.intents.remove_item,
            ..before.intents
        },
        ..*before
    })
}

/// Carries out the taking off of equipment.
pub struct ItemRemoveSystem {}

impl ItemRemoveSystem {
    /// Takes off what is to come off, in the order of the wearers.
    pub fn run(&mut self, world: &mut World)
        ensures
            taken_off(old(world), final(world)),
            old(world).wf() ==> final(world).wf(),
    {
        let bound = world.entities.bound();
        let mut id: usize = 0;
        while id < bound
            invariant
                0 <= id <= bound == old(world).entities.alive.len(),
                old(world).wf() ==> world.wf(),
                world.holdings() == remove_all(
                    old(world).holdings(),
                    old(world).intents.remove_item@,
                    id as nat,
                ),
                *world == (World {
                    equipped: world.equipped,
                    in_backpack: world.in_backpack,
                    ..*old(world)
                }),
            decreases bound - id,
        {
            let e = Entity { id };
            let intent = match world.intents.remove_item.get(e) {
                Some(r) => Some(*r),
                None => None,
            };
            match intent {
                Some(to_remove) => {
                    world.equipped.remove(to_remove.item);
                    world.in_backpack.insert(to_remove.item, InBackpack { owner: e });
                },
                None => {},
            }
            id = id + 1;
        }
        world.intents.remove_item.clear();
    }
}

/// A round of uses only adds to the log, and neither makes nor forgets
/// an entity.
pub proof fn lemma_using_appends(
    kinds: Kinds,
    content: Seq<Vec<Entity>>,
    player: Entity,
    fx: Effects,
    intents: Map<Entity, WantsToUseItem>,
    n: nat,
)
    ensures
        fx.log.is_prefix_of(use_all(kinds, content, player, fx, intents, n).log),
        use_all(kinds, content, player, fx, intents, n).alive.len() == fx.alive.len(),
    decreases n,
{
    if n > 0 {
        lemma_using_appends(kinds, content, player, fx, intents, (n - 1) as nat);
        let before = use_all(kinds, content, player, fx, intents, (n - 1) as nat);
        let e = Entity { id: (n - 1) as usize };
        if intents.dom().contains(e) {
            lemma_use_appends(kinds, content, player, before, e, intents[e]);
        }
    }
}

/// `after` is `before` with every use of an item or spell carried out.
pub open spec fn used(before: &World, after: &World) -> bool {
    &&& after.effects() == use_all(
        before.kinds,
        before.map.tile_content@,
        before.player,
        before.effects(),
        before.intents.use_item@,
        before.entities.alive.len() as nat,
    )
    &&& after.intents.use_item@ == Map::<Entity, WantsToUseItem>::empty()
    &&& after.intents == (crate::world::Intents {
        use_item: after.intents.use_item,
        ..before.intents
    })
    &&& after.same_but_effects(before)
}

/// Carries out the uses of items and spells.
pub struct ItemUseSystem {}

impl ItemUseSystem {
    /// Carries out every use, in the order of the users.
    pub fn run(&mut self, world: &mut World)
        requires
            old(world).wf(),
        ensures
            used(old(world), final(world)),
            final(world).wf(),
    {
        let bound = world.entities.bound();
        let mut id: usize = 0;
        while id < bound
            invariant
                0 <= id <= bound == old(world).entities.alive.len(),
                world.entities.alive.len() == bound,
                world.wf(),
                world.same_but_effects(old(world)),
                world.intents == old(world).intents,
                world.effects() == use_all(
                    old(world).kinds,
                    old(world).map.tile_content@,
                    old(world).player,
                    old(world).effects(),
                    old(world).intents.use_item@,
                    id as nat,
                ),
            decreases bound - id,
        {
            let e = Entity { id };
            let intent = match world.intents.use_item.get(e) {
                Some(u) => Some(*u),
                None => None,
            };
            match intent {
                Some(useitem) => {
                    use_item(world, e, useitem);
                },
                None => {},
            }
            id = id + 1;
        }
        world.intents.use_item.clear();
    }
}


/// The part of the world that drinking a potion can change.
pub struct Drinking {
    pub stats: Map<Entity, CombatStats>,
    pub log: Seq<Seq<char>>,
    pub alive: Seq<bool>,
}

impl World {
    /// The part of this world that drinking a potion can change.
    pub open spec fn drinking(&self) -> Drinking {
        Drinking { stats: self.combat_stats@, log: self.log@, alive: self.entities.alive@ }
    }
}

/// What `drinker` drinking `potion` makes of `d`.  A drinker with hit
/// points and a potion that heals are needed; then the drinker is healed,
/// the potion is deleted, and the player's drink is written to the log.
pub open spec fn drink_potion(
    kinds: Kinds,
    player: Entity,
    d: Drinking,
    drinker: Entity,
    potion: Entity,
) -> Drinking {
    if d.stats.dom().contains(drinker) && kinds.provides_healing@.dom().contains(potion) {
        let amount = kinds.provides_healing@[potion].heal_amount;
        Drinking {
            stats: d.stats.insert(drinker, d.stats[drinker].healed(amount as int)),
            log: if drinker == player {
                d.log.push(drink_message(name_of(kinds.names@, potion), amount as int))
            } else {
                d.log
            },
            alive: if potion.id < d.alive.len() {
                d.alive.update(potion.id as int, false)
            } else {
                d.alive
            },
        }
    } else {
        d
    }
}

/// What the drinks of the first `n` entities make of `d`.
pub open spec fn drink_all(
    kinds: Kinds,
    player: Entity,
    d: Drinking,
    intents: Map<Entity, WantsToDrinkPotion>,
    n: nat,
) -> Drinking
    decreases n,
{
    if n == 0 {
        d
    } else {
        let before = drink_all(kinds, player, d, intents, (n - 1) as nat);
        let e = Entity { id: (n - 1) as usize };
        if intents.dom().contains(e) {
            drink_potion(kinds, player, before, e, intents[e].potion)
        } else {
            before
        }
    }
}

/// A round of drinks only adds to the log, and neither makes nor forgets
/// an entity.
pub proof fn lemma_drinking_appends(
    kinds: Kinds,
    player: Entity,
    d: Drinking,
    intents: Map<Entity, WantsToDrinkPotion>,
    n: nat,
)
    ensures
        d.log.is_prefix_of(drink_all(kinds, player, d, intents, n).log),
        drink_all(kinds, player, d, intents, n).alive.len() == d.alive.len(),
    decreases n,
{
    if n > 0 {
        lemma_drinking_appends(kinds, player, d, intents, (n - 1) as nat);
    }
}

/// `after` is `before` with every potion drunk that was to be drunk.
pub open spec fn drunk(before: &World, after: &World) -> bool {
    &&& after.drinking() == drink_all(
        before.kinds,
        before.player,
        before.drinking(),
        before.intents.drink@,
        before.entities.alive.len() as nat,
    )
    &&& after.intents.drink@ == Map::<Entity, WantsToDrinkPotion>::empty()
    &&& *after == (World {
        combat_stats: after.combat_stats,
        log: after.log,
        entities: after.entities,
        intents: crate::world::Intents { drink: after.intents.drink, ..before.intents },
        ..*before
    })
}

/// Carries out the drinking of potions.
pub struct PotionUseSystem {}

impl PotionUseSystem {
    /// Has everyone drink who wants to, in the order of the drinkers.
    pub fn run(&mut self, world: &mut World)
        requires
            old(world).wf(),
        ensures
            drunk(old(world), final(world)),
            final(world).wf(),
    {
        let bound = world.entities.bound();
        let player = world.player;
        let mut id: usize = 0;
        while id < bound
            invariant
                0 <= id <= bound == old(world).entities.alive.len(),
                world.entities.alive.len() == bound,
                player == old(world).player,
                world.wf(),
                world.drinking() == drink_all(
                    old(world).kinds,
                    player,
                    old(world).drinking(),
                    old(world).intents.drink@,
                    id as nat,
                ),
                *world == (World {
                    combat_stats: world.combat_stats,
                    log: world.log,
                    entities: world.entities,
                    ..*old(world)
                }),
            decreases bound - id,
        {
            let e = Entity { id };
            let intent = match world.intents.drink.get(e) {
                Some(d) => Some(*d),
                None => None,
            };
            let stats = match world.combat_stats.get(e) {
                Some(s) => Some(*s),
                None => None,
            };
            match (intent, stats) {
                (Some(drink), Some(stats)) => {
                    let healing = match world.kinds.provides_healing.get(drink.potion) {
                        Some(h) => Some(*h),
                        None => None,
                    };
                    match healing {
                        Some(potion) => {
                            let mut stats = stats;
                            assert(world.combat_stats@.dom().contains(e));
                            assert(stats.wf());
                            stats.heal(potion.heal_amount);
                            world.combat_stats.insert(e, stats);
                            if e == player {
                                let name = name_text(&world.kinds.names, drink.potion);
                                world.log.push(drink_text(name.as_str(), potion.heal_amount));
                            }
                            world.entities.delete(drink.potion);
                        },
                        None => {},
                    }
                },
                _ => {},
            }
            id = id + 1;
        }
        world.intents.drink.clear();
    }
}

} // verus!
