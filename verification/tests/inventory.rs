use spell_thief::components::{
    CombatStats, Consumable, EquipmentSlot, Equipped, InBackpack, Item, Name, ProvidesHealing,
    WantsToDrinkPotion, WantsToDropItem, WantsToPickupItem, WantsToRemoveItem,
};
use spell_thief::geometry::Position;
use spell_thief::inventory_system::{
    ItemCollectionSystem, ItemDropSystem, ItemRemoveSystem, PotionUseSystem,
};
use spell_thief::map::TileMap;
use spell_thief::store::Entity;
use spell_thief::world::World;

fn world_with_player() -> (World, Entity) {
    let mut world = World::new(TileMap::new_empty_map(1));
    let player = world.create_entity();
    world.positions.insert(player, Position { x: 7, y: 9 });
    world.combat_stats.insert(player, CombatStats { max_hp: 20, hp: 10, defense: 2, attack: 5 });
    world.player = player;
    world.player_pos = Position { x: 7, y: 9 };
    (world, player)
}

fn item(world: &mut World, name: &str) -> Entity {
    let e = world.create_entity();
    world.kinds.items.insert(e, Item {});
    world.kinds.names.insert(e, Name { name: name.to_string() });
    e
}

fn places(world: &World, e: Entity) -> (bool, bool, bool) {
    (world.positions.contains(e), world.in_backpack.contains(e), world.equipped.contains(e))
}

#[test]
fn picking_up_moves_the_item_into_the_pack() {
    let (mut world, player) = world_with_player();
    let potion = item(&mut world, "Health Potion");
    world.positions.insert(potion, Position { x: 7, y: 9 });
    assert_eq!(places(&world, potion), (true, false, false));
    world.intents.pickup.insert(player, WantsToPickupItem { collected_by: player, item: potion });

    ItemCollectionSystem {}.run(&mut world);

    assert_eq!(places(&world, potion), (false, true, false));
    assert_eq!(world.in_backpack.get(potion), Some(&InBackpack { owner: player }));
    assert_eq!(world.log.entries, vec!["You pick up the Health Potion.".to_string()]);
    assert!(!world.intents.pickup.contains(player));
    // The player itself has not moved.
    assert_eq!(world.positions.get(player), Some(&Position { x: 7, y: 9 }));
}

#[test]
fn a_monster_picks_up_without_a_message() {
    let (mut world, _player) = world_with_player();
    let thief = world.create_entity();
    let gem = item(&mut world, "Gem");
    world.positions.insert(gem, Position { x: 3, y: 3 });
    world.intents.pickup.insert(thief, WantsToPickupItem { collected_by: thief, item: gem });
    ItemCollectionSystem {}.run(&mut world);
    assert_eq!(world.in_backpack.get(gem), Some(&InBackpack { owner: thief }));
    assert!(world.log.entries.is_empty());
}

#[test]
fn dropping_puts_the_item_on_the_droppers_tile() {
    let (mut world, player) = world_with_player();
    let potion = item(&mut world, "Health Potion");
    world.in_backpack.insert(potion, InBackpack { owner: player });
    world.intents.drop_item.insert(player, WantsToDropItem { item: potion });

    ItemDropSystem {}.run(&mut world);

    assert_eq!(places(&world, potion), (true, false, false));
    assert_eq!(world.positions.get(potion), Some(&Position { x: 7, y: 9 }));
    assert_eq!(world.log.entries, vec!["You drop the Health Potion.".to_string()]);
    assert!(!world.intents.drop_item.contains(player));
}

#[test]
fn a_dropper_without_a_place_keeps_the_item() {
    let (mut world, _player) = world_with_player();
    let ghost = world.create_entity();
    let chain = item(&mut world, "Chain");
    world.in_backpack.insert(chain, InBackpack { owner: ghost });
    world.intents.drop_item.insert(ghost, WantsToDropItem { item: chain });
    ItemDropSystem {}.run(&mut world);
    assert_eq!(places(&world, chain), (false, true, false));
    assert!(!world.intents.drop_item.contains(ghost));
}

#[test]
fn taking_off_moves_the_item_into_the_pack() {
    let (mut world, player) = world_with_player();
    let shield = item(&mut world, "Shield");
    world.equipped.insert(shield, Equipped { owner: player, slot: EquipmentSlot::Shield });
    world.intents.remove_item.insert(player, WantsToRemoveItem { item: shield });

    ItemRemoveSystem {}.run(&mut world);

    assert_eq!(places(&world, shield), (false, true, false));
    assert_eq!(world.in_backpack.get(shield), Some(&InBackpack { owner: player }));
    assert!(!world.intents.remove_item.contains(player));
}

#[test]
fn an_item_goes_round_and_is_always_in_one_place() {
    let (mut world, player) = world_with_player();
    let sword = item(&mut world, "Sword");
    world.positions.insert(sword, Position { x: 7, y: 9 });
    let one_place = |w: &World| {
        let (g, p, e) = places(w, sword);
        (g as u8) + (p as u8) + (e as u8) == 1
    };
    assert!(one_place(&world));
    world.intents.pickup.insert(player, WantsToPickupItem { collected_by: player, item: sword });
    ItemCollectionSystem {}.run(&mut world);
    assert!(one_place(&world));
    world.intents.drop_item.insert(player, WantsToDropItem { item: sword });
    ItemDropSystem {}.run(&mut world);
    assert!(one_place(&world));
    assert!(world.positions.contains(sword));
}

#[test]
fn drinking_heals_up_to_the_maximum_and_uses_the_potion_up() {
    let (mut world, player) = world_with_player();
    let potion = item(&mut world, "Health Potion");
    world.kinds.consumables.insert(potion, Consumable {});
    world.kinds.provides_healing.insert(potion, ProvidesHealing { heal_amount: 15 });
    world.in_backpack.insert(potion, InBackpack { owner: player });
    world.intents.drink.insert(player, WantsToDrinkPotion { potion });

    PotionUseSystem {}.run(&mut world);
    assert_eq!(world.combat_stats.get(player).unwrap().hp, 20);
    assert!(!world.entities.alive(potion));
    assert_eq!(world.log.entries, vec!["You drink the Health Potion, healing 15 hp.".to_string()]);
    assert!(!world.intents.drink.contains(player));

    world.maintain();
    assert!(!world.in_backpack.contains(potion));
    assert!(!world.kinds.names.contains(potion));
    assert!(world.combat_stats.contains(player));
}

#[test]
fn drinking_what_does_not_heal_does_nothing() {
    let (mut world, player) = world_with_player();
    let water = item(&mut world, "Water");
    world.intents.drink.insert(player, WantsToDrinkPotion { potion: water });
    PotionUseSystem {}.run(&mut world);
    assert_eq!(world.combat_stats.get(player).unwrap().hp, 10);
    assert!(world.entities.alive(water));
    assert!(world.log.entries.is_empty());
}

#[test]
fn pools_stay_within_their_bounds() {
    let mut stats = CombatStats { max_hp: 20, hp: 10, defense: 0, attack: 0 };
    stats.heal(i32::MAX);
    assert_eq!(stats.hp, 20);
    stats.suffer(5);
    assert_eq!(stats.hp, 15);
    stats.suffer(i128::MAX);
    assert_eq!(stats.hp, 0);
    stats.heal(-3);
    assert_eq!(stats.hp, 0);
    stats.suffer(-7);
    assert_eq!(stats.hp, 7);
    stats.suffer(i128::MIN);
    assert_eq!(stats.hp, 20);
    let mut magic = spell_thief::components::MagicStats { max_mana: 5, mana: 2 };
    magic.spend(1);
    assert_eq!(magic.mana, 1);
    magic.spend(9);
    assert_eq!(magic.mana, 0);
    magic.spend(-100);
    assert_eq!(magic.mana, 5);
}
