use spell_thief::components::{
    AreaOfEffect, CombatStats, Confusion, Consumable, DestroysWalls, EquipmentSlot, Equippable,
    Equipped, InBackpack, InflictsDamage, Item, MagicStats, Name, ProvidesHealing, Spell,
    WantsToUseItem,
};
use spell_thief::geometry::Position;
use spell_thief::inventory_system::ItemUseSystem;
use spell_thief::item_use::{find_blast_tiles, find_targets, use_item};
use spell_thief::map::{TileMap, TileType};
use spell_thief::store::Entity;
use spell_thief::world::World;

fn open_world() -> World {
    let mut map = TileMap::new_empty_map(1);
    for y in 1..42 {
        for x in 1..65 {
            let idx = map.xy_idx(x, y);
            map.tiles[idx] = TileType::Floor;
        }
    }
    World::new(map)
}

fn spawn_fighter(world: &mut World, x: i32, y: i32, hp: i32, max_hp: i32) -> Entity {
    let e = world.create_entity();
    world.positions.insert(e, Position { x, y });
    world.combat_stats.insert(e, CombatStats { max_hp, hp, defense: 1, attack: 4 });
    let idx = world.map.xy_idxi32(x, y);
    world.map.tile_content[idx].push(e);
    e
}

fn named(world: &mut World, name: &str) -> Entity {
    let e = world.create_entity();
    world.kinds.items.insert(e, Item {});
    world.kinds.names.insert(e, Name { name: name.to_string() });
    e
}

#[test]
fn healing_potion_is_clamped_and_consumed() {
    let mut world = open_world();
    let player = spawn_fighter(&mut world, 10, 10, 10, 20);
    world.player = player;
    let potion = named(&mut world, "Health Potion");
    world.kinds.consumables.insert(potion, Consumable {});
    world.kinds.provides_healing.insert(potion, ProvidesHealing { heal_amount: 15 });
    world.intents.use_item.insert(player, WantsToUseItem { item: potion, target: None });

    ItemUseSystem {}.run(&mut world);

    assert_eq!(world.combat_stats.get(player).unwrap().hp, 20);
    assert!(!world.entities.alive(potion));
    assert_eq!(world.log.entries, vec!["You use the Health Potion, healing 15 hp.".to_string()]);
    assert!(!world.intents.use_item.contains(player));
}

#[test]
fn healing_by_a_monster_is_not_logged() {
    let mut world = open_world();
    let player = spawn_fighter(&mut world, 10, 10, 10, 20);
    world.player = player;
    let orc = spawn_fighter(&mut world, 20, 20, 3, 16);
    let potion = named(&mut world, "Health Potion");
    world.kinds.provides_healing.insert(potion, ProvidesHealing { heal_amount: 8 });

    use_item(&mut world, orc, WantsToUseItem { item: potion, target: None });

    assert_eq!(world.combat_stats.get(orc).unwrap().hp, 11);
    assert_eq!(world.combat_stats.get(player).unwrap().hp, 10);
    assert!(world.log.entries.is_empty());
    // Not a consumable: it stays.
    assert!(world.entities.alive(potion));
}

#[test]
fn fireball_hurts_both_monsters_and_opens_the_wall() {
    let mut world = open_world();
    let player = spawn_fighter(&mut world, 10, 10, 30, 30);
    world.player = player;
    // The fireball lands four tiles east of the player.
    let center = Position { x: 14, y: 10 };
    let orc = spawn_fighter(&mut world, 15, 10, 16, 16);
    let goblin = spawn_fighter(&mut world, 14, 11, 16, 16);
    let wall_idx = world.map.xy_idxi32(14, 8);
    world.map.tiles[wall_idx] = TileType::Wall;
    let far_wall = world.map.xy_idxi32(18, 10);
    world.map.tiles[far_wall] = TileType::Wall;

    let fireball = named(&mut world, "Fireball Scroll");
    world.kinds.consumables.insert(fireball, Consumable {});
    world.kinds.inflicts_damage.insert(fireball, InflictsDamage { damage: 20 });
    world.kinds.area_of_effect.insert(fireball, AreaOfEffect { radius: 3 });
    world.kinds.destroys_walls.insert(fireball, DestroysWalls {});
    world.intents.use_item.insert(player, WantsToUseItem { item: fireball, target: Some(center) });

    ItemUseSystem {}.run(&mut world);

    assert_eq!(world.suffer_damage.get(orc).unwrap().amount, vec![20]);
    assert_eq!(world.suffer_damage.get(goblin).unwrap().amount, vec![20]);
    // The player stands four tiles away, outside the blast.
    assert!(!world.suffer_damage.contains(player));
    assert_eq!(world.map.tiles[wall_idx], TileType::Floor);
    // A wall outside the blast stands.
    assert_eq!(world.map.tiles[far_wall], TileType::Wall);
    assert!(!world.entities.alive(fireball));
}

#[test]
fn wall_breaker_without_targets_is_still_used_up() {
    let mut world = open_world();
    let player = spawn_fighter(&mut world, 10, 10, 30, 30);
    world.player = player;
    let wall_idx = world.map.xy_idxi32(30, 30);
    world.map.tiles[wall_idx] = TileType::Wall;
    let scroll = named(&mut world, "Digging Scroll");
    world.kinds.consumables.insert(scroll, Consumable {});
    world.kinds.area_of_effect.insert(scroll, AreaOfEffect { radius: 1 });
    world.kinds.destroys_walls.insert(scroll, DestroysWalls {});

    use_item(
        &mut world,
        player,
        WantsToUseItem { item: scroll, target: Some(Position { x: 30, y: 31 }) },
    );

    assert_eq!(world.map.tiles[wall_idx], TileType::Floor);
    assert!(!world.entities.alive(scroll));
}

#[test]
fn wall_breaker_that_finds_no_wall_is_kept() {
    let mut world = open_world();
    let player = spawn_fighter(&mut world, 10, 10, 30, 30);
    world.player = player;
    let scroll = named(&mut world, "Digging Scroll");
    world.kinds.consumables.insert(scroll, Consumable {});
    world.kinds.area_of_effect.insert(scroll, AreaOfEffect { radius: 1 });
    world.kinds.destroys_walls.insert(scroll, DestroysWalls {});

    use_item(
        &mut world,
        player,
        WantsToUseItem { item: scroll, target: Some(Position { x: 30, y: 31 }) },
    );

    assert!(world.entities.alive(scroll));
}

#[test]
fn blast_is_clipped_to_the_interior() {
    // Radius 2 around a tile next to the corner of the level.
    let blast =
        find_blast_tiles(Some(AreaOfEffect { radius: 2 }), Some(Position { x: 1, y: 1 }));
    assert_eq!(
        blast,
        vec![
            Position { x: 1, y: 1 },
            Position { x: 1, y: 2 },
            Position { x: 1, y: 3 },
            Position { x: 2, y: 1 },
            Position { x: 2, y: 2 },
            Position { x: 3, y: 1 },
        ]
    );
    assert!(find_blast_tiles(None, Some(Position { x: 5, y: 5 })).is_empty());
    assert!(find_blast_tiles(Some(AreaOfEffect { radius: 2 }), None).is_empty());
}

#[test]
fn blast_on_open_ground_is_the_whole_disc() {
    let center = Position { x: 30, y: 20 };
    let blast = find_blast_tiles(Some(AreaOfEffect { radius: 3 }), Some(center));
    assert_eq!(blast.len(), 29);
    for x in 20..41 {
        for y in 10..31 {
            let p = Position { x, y };
            let near = (x - 30) * (x - 30) + (y - 20) * (y - 20) <= 9;
            assert_eq!(blast.contains(&p), near);
        }
    }
}

#[test]
fn single_target_is_whoever_stands_on_the_tile() {
    let mut world = open_world();
    let player = spawn_fighter(&mut world, 10, 10, 30, 30);
    let orc = spawn_fighter(&mut world, 12, 10, 16, 16);
    let rat = spawn_fighter(&mut world, 12, 10, 2, 2);
    let at = Some(Position { x: 12, y: 10 });
    let blast = find_blast_tiles(None, at);
    assert_eq!(find_targets(&world.map, None, player, at, &blast), vec![orc, rat]);
    // Without a target the user aims at itself.
    assert_eq!(find_targets(&world.map, None, orc, None, &Vec::new()), vec![orc]);
    // A tile off the map holds nobody.
    let off = Some(Position { x: -1, y: 3 });
    assert!(find_targets(&world.map, None, player, off, &Vec::new()).is_empty());
}

#[test]
fn casting_a_spell_costs_mana_and_is_logged() {
    let mut world = open_world();
    let player = spawn_fighter(&mut world, 10, 10, 30, 30);
    world.player = player;
    world.magic_stats.insert(player, MagicStats { max_mana: 5, mana: 3 });
    let orc = spawn_fighter(&mut world, 13, 10, 16, 16);
    let spell = world.create_entity();
    world.kinds.spells.insert(spell, Spell { name: "fireball".to_string(), range: 6, mana_cost: 2 });
    world.kinds.inflicts_damage.insert(spell, InflictsDamage { damage: 20 });
    world.kinds.area_of_effect.insert(spell, AreaOfEffect { radius: 3 });
    let intent = WantsToUseItem { item: spell, target: Some(Position { x: 13, y: 10 }) };

    use_item(&mut world, player, intent);
    assert_eq!(world.log.entries, vec!["You cast fireball, costing 2 mana.".to_string()]);
    assert_eq!(world.magic_stats.get(player).unwrap().mana, 1);
    assert_eq!(world.suffer_damage.get(orc).unwrap().amount, vec![20]);
    // A spell is no consumable: it stays.
    assert!(world.entities.alive(spell));

    // A second cast cannot be paid for: it is turned away and does nothing.
    use_item(&mut world, player, intent);
    assert_eq!(world.magic_stats.get(player).unwrap().mana, 1);
    assert_eq!(world.suffer_damage.get(orc).unwrap().amount, vec![20]);
    assert_eq!(
        world.log.entries,
        vec![
            "You cast fireball, costing 2 mana.".to_string(),
            "You do not have enough mana to cast fireball.".to_string(),
        ]
    );
}

#[test]
fn confusion_scroll_confuses_and_is_logged() {
    let mut world = open_world();
    let player = spawn_fighter(&mut world, 10, 10, 30, 30);
    world.player = player;
    let orc = spawn_fighter(&mut world, 12, 10, 16, 16);
    world.kinds.names.insert(orc, Name { name: "Orc".to_string() });
    let scroll = named(&mut world, "Confusion Scroll");
    world.kinds.consumables.insert(scroll, Consumable {});
    world.confused.insert(scroll, Confusion { duration: 4 });

    use_item(
        &mut world,
        player,
        WantsToUseItem { item: scroll, target: Some(Position { x: 12, y: 10 }) },
    );

    assert_eq!(world.confused.get(orc), Some(&Confusion { duration: 4 }));
    assert_eq!(world.log.entries, vec!["You use Confusion Scroll on Orc, confusing them.".to_string()]);
    assert!(!world.entities.alive(scroll));
}

#[test]
fn equipping_swaps_with_what_was_worn() {
    let mut world = open_world();
    let player = spawn_fighter(&mut world, 10, 10, 30, 30);
    world.player = player;
    let dagger = named(&mut world, "Dagger");
    world.kinds.equippable.insert(dagger, Equippable { slot: EquipmentSlot::Melee });
    world.equipped.insert(dagger, Equipped { owner: player, slot: EquipmentSlot::Melee });
    let shield = named(&mut world, "Shield");
    world.kinds.equippable.insert(shield, Equippable { slot: EquipmentSlot::Shield });
    world.equipped.insert(shield, Equipped { owner: player, slot: EquipmentSlot::Shield });
    let sword = named(&mut world, "Longsword");
    world.kinds.equippable.insert(sword, Equippable { slot: EquipmentSlot::Melee });
    world.in_backpack.insert(sword, InBackpack { owner: player });

    use_item(&mut world, player, WantsToUseItem { item: sword, target: None });

    assert_eq!(
        world.equipped.get(sword),
        Some(&Equipped { owner: player, slot: EquipmentSlot::Melee })
    );
    assert!(!world.in_backpack.contains(sword));
    assert!(!world.equipped.contains(dagger));
    assert_eq!(world.in_backpack.get(dagger), Some(&InBackpack { owner: player }));
    // The other slot is left alone.
    assert!(world.equipped.contains(shield));
    assert_eq!(
        world.log.entries,
        vec!["You unequip Dagger.".to_string(), "You equip Longsword.".to_string()]
    );
    // Equipment is not used up.
    assert!(world.entities.alive(sword));
}

#[test]
fn unnamed_things_are_called_something() {
    let mut world = open_world();
    let player = spawn_fighter(&mut world, 10, 10, 10, 20);
    world.player = player;
    let potion = world.create_entity();
    world.kinds.provides_healing.insert(potion, ProvidesHealing { heal_amount: 1 });
    use_item(&mut world, player, WantsToUseItem { item: potion, target: None });
    assert_eq!(world.log.entries, vec!["You use the something, healing 1 hp.".to_string()]);
}
