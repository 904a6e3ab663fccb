use spell_thief::components::{
    AreaOfEffect, CombatStats, Consumable, InflictsDamage, MagicStats, Monster, Name, Player,
    Spell, Viewshed, WantsToDropItem, WantsToMelee, WantsToUseItem,
};
use spell_thief::gamelog::{decimal_string, two_wide_string};
use spell_thief::geometry::Position;
use spell_thief::input::Input;
use spell_thief::item_use::use_item;
use spell_thief::map::{TileMap, TileType};
use spell_thief::melee_combat_system::MeleeCombatSystem;
use spell_thief::run_state::RunState;
use spell_thief::state::State;
use spell_thief::store::{Entities, Entity, Store};
use spell_thief::world::World;

fn open_world() -> World {
    let mut map = TileMap::new_empty_map(1);
    for y in 1..42 {
        for x in 1..65 {
            let idx = map.xy_idx(x, y);
            map.tiles[idx] = TileType::Floor;
        }
    }
    World::new(map)
}

fn fighter(world: &mut World, x: i32, y: i32, attack: i32, defense: i32) -> Entity {
    let e = world.create_entity();
    world.positions.insert(e, Position { x, y });
    world.combat_stats.insert(e, CombatStats { max_hp: 30, hp: 30, defense, attack });
    e
}

#[test]
fn two_places_match_the_standard_formatter() {
    for n in [-100, -10, -9, -1, 0, 1, 9, 10, 11, 99, 100, 12345, i32::MAX, i32::MIN] {
        assert_eq!(two_wide_string(n), format!("{:02}", n));
    }
}

#[test]
fn numbers_are_written_as_the_standard_formatter_writes_them() {
    let mut samples: Vec<i128> = vec![
        0, 1, 9, 10, 11, 99, 100, 101, 1000, 4096, 65535, 1234567890, -1, -9, -10, -11, -100,
        -12345, i32::MAX as i128, i32::MIN as i128, i64::MAX as i128, i64::MIN as i128, i128::MAX,
        i128::MIN, i128::MAX - 1, i128::MIN + 1,
    ];
    let mut power: i128 = 1;
    for _ in 0..38 {
        samples.push(power);
        samples.push(power - 1);
        samples.push(-power);
        samples.push(-power + 1);
        power *= 10;
    }
    for n in samples {
        assert_eq!(decimal_string(n), format!("{}", n));
    }
    assert_eq!(decimal_string(-407), "-407");
    assert_eq!(decimal_string(20), "20");
}

#[test]
fn aiming_at_an_empty_tile_wastes_nothing() {
    let mut world = open_world();
    let player = fighter(&mut world, 10, 10, 5, 2);
    world.player = player;
    let scroll = world.create_entity();
    world.kinds.names.insert(scroll, Name { name: "Magic Missile Scroll".to_string() });
    world.kinds.consumables.insert(scroll, Consumable {});
    world.kinds.inflicts_damage.insert(scroll, InflictsDamage { damage: 8 });

    use_item(
        &mut world,
        player,
        WantsToUseItem { item: scroll, target: Some(Position { x: 12, y: 12 }) },
    );

    assert!(world.entities.alive(scroll));
    assert!(world.log.entries.is_empty());
    assert!(!world.suffer_damage.contains(player));
}

#[test]
fn several_attackers_add_up_on_one_defender() {
    let mut world = open_world();
    let knight = fighter(&mut world, 10, 10, 5, 2);
    let orc = fighter(&mut world, 11, 10, 8, 1);
    let goblin = fighter(&mut world, 9, 10, 4, 1);
    let rat = fighter(&mut world, 10, 11, 1, 0);
    world.intents.melee.insert(orc, WantsToMelee { target: knight });
    world.intents.melee.insert(goblin, WantsToMelee { target: knight });
    world.intents.melee.insert(rat, WantsToMelee { target: knight });
    world.intents.melee.insert(knight, WantsToMelee { target: rat });

    MeleeCombatSystem {}.run(&mut world);

    // In the order of the attackers; the rat cannot scratch the knight.
    assert_eq!(world.suffer_damage.get(knight).unwrap().amount, vec![6, 2]);
    assert_eq!(world.suffer_damage.get(rat).unwrap().amount, vec![5]);
    assert!(!world.suffer_damage.contains(orc));
}

#[test]
fn a_spell_costs_its_caster_alone() {
    let mut world = open_world();
    let player = fighter(&mut world, 10, 10, 5, 2);
    world.player = player;
    world.magic_stats.insert(player, MagicStats { max_mana: 10, mana: 5 });
    let shaman = fighter(&mut world, 40, 30, 5, 2);
    world.magic_stats.insert(shaman, MagicStats { max_mana: 10, mana: 7 });
    let spell = world.create_entity();
    world.kinds.spells.insert(spell, Spell { name: "fireball".to_string(), range: 6, mana_cost: 1 });
    world.kinds.area_of_effect.insert(spell, AreaOfEffect { radius: 3 });

    use_item(
        &mut world,
        player,
        WantsToUseItem { item: spell, target: Some(Position { x: 12, y: 10 }) },
    );

    assert_eq!(world.magic_stats.get(player).unwrap().mana, 4);
    assert_eq!(world.magic_stats.get(shaman).unwrap().mana, 7);
    assert_eq!(world.log.entries, vec!["You cast fireball, costing 1 mana.".to_string()]);
}

#[test]
fn a_cast_that_cannot_be_paid_is_turned_away() {
    let mut world = open_world();
    let player = fighter(&mut world, 10, 10, 5, 2);
    world.player = player;
    world.magic_stats.insert(player, MagicStats { max_mana: 10, mana: 2 });
    let orc = fighter(&mut world, 12, 10, 5, 2);
    let idx = world.map.xy_idxi32(12, 10);
    world.map.tile_content[idx].push(orc);
    let wall = world.map.xy_idxi32(12, 11);
    world.map.tiles[wall] = TileType::Wall;
    let spell = world.create_entity();
    world.kinds.spells.insert(spell, Spell { name: "fireball".to_string(), range: 6, mana_cost: 3 });
    world.kinds.area_of_effect.insert(spell, AreaOfEffect { radius: 3 });
    world.kinds.inflicts_damage.insert(spell, InflictsDamage { damage: 20 });
    world.kinds.destroys_walls.insert(spell, spell_thief::components::DestroysWalls {});
    world.kinds.consumables.insert(spell, Consumable {});
    let intent = WantsToUseItem { item: spell, target: Some(Position { x: 12, y: 10 }) };

    use_item(&mut world, player, intent);

    assert_eq!(world.magic_stats.get(player).unwrap().mana, 2);
    assert!(!world.suffer_damage.contains(orc));
    assert_eq!(world.map.tiles[wall], TileType::Wall);
    assert!(world.entities.alive(spell));
    assert_eq!(world.log.entries, vec!["You do not have enough mana to cast fireball.".to_string()]);

    // Whoever has no pool of mana has none to spend.
    use_item(&mut world, orc, intent);
    assert!(!world.suffer_damage.contains(orc));
    assert_eq!(world.log.entries.len(), 2);

    // With exactly the price in the pool the cast goes ahead.
    world.magic_stats.insert(player, MagicStats { max_mana: 10, mana: 3 });
    use_item(&mut world, player, intent);
    assert_eq!(world.magic_stats.get(player).unwrap().mana, 0);
    assert_eq!(world.suffer_damage.get(orc).unwrap().amount, vec![20]);
    assert_eq!(world.map.tiles[wall], TileType::Floor);
    assert!(!world.entities.alive(spell));
}

#[test]
fn wishes_do_not_outlive_their_tick() {
    let mut map = TileMap::new_empty_map(1);
    for y in 1..42 {
        for x in 1..65 {
            let idx = map.xy_idx(x, y);
            map.tiles[idx] = TileType::Floor;
        }
    }
    let mut gs = State::new(map);
    let player = gs.ecs.create_entity();
    gs.ecs.player = player;
    gs.ecs.player_pos = Position { x: 10, y: 10 };
    gs.ecs.kinds.players.insert(player, Player {});
    gs.ecs.positions.insert(player, Position { x: 10, y: 10 });
    gs.ecs.combat_stats.insert(player, CombatStats { max_hp: 30, hp: 30, defense: 2, attack: 5 });
    gs.ecs.viewsheds.insert(player, Viewshed { visible_tiles: Vec::new(), range: 8, dirty: true });
    let orc = gs.ecs.create_entity();
    gs.ecs.kinds.monsters.insert(orc, Monster {});
    gs.ecs.positions.insert(orc, Position { x: 11, y: 11 });
    gs.ecs.combat_stats.insert(orc, CombatStats { max_hp: 16, hp: 16, defense: 1, attack: 4 });
    gs.ecs.viewsheds.insert(orc, Viewshed { visible_tiles: Vec::new(), range: 8, dirty: true });
    let junk = gs.ecs.create_entity();
    gs.ecs.intents.drop_item.insert(player, WantsToDropItem { item: junk });
    gs.ecs.intents.melee.insert(player, WantsToMelee { target: orc });
    gs.ecs.run_state = RunState::PlayerTurn;

    let idle = Input { key: None, mouse_pos: Position { x: 0, y: 0 }, left_click: false };
    assert_eq!(gs.tick(&idle), None);

    assert_eq!(gs.ecs.run_state, RunState::MonsterTurn);
    assert!(!gs.ecs.intents.melee.contains(player));
    assert!(!gs.ecs.intents.melee.contains(orc));
    assert!(!gs.ecs.intents.drop_item.contains(player));
    assert!(!gs.ecs.suffer_damage.contains(orc));
    // The player hit the orc for four, the orc the player for two.
    assert_eq!(gs.ecs.combat_stats.get(orc).unwrap().hp, 12);
    assert_eq!(gs.ecs.combat_stats.get(player).unwrap().hp, 28);
    assert_eq!(gs.ecs.positions.get(junk), Some(&Position { x: 10, y: 10 }));
}

#[test]
fn a_store_keeps_what_it_is_given() {
    let mut store: Store<i32> = Store::new();
    let a = Entity { id: 3 };
    let b = Entity { id: 0 };
    assert_eq!(store.get(a), None);
    assert_eq!(store.insert(a, 7), None);
    assert_eq!(store.insert(a, 8), Some(7));
    assert_eq!(store.insert(b, 1), None);
    assert!(store.contains(a) && store.contains(b));
    assert!(!store.contains(Entity { id: 1 }));
    assert!(!store.contains(Entity { id: 99 }));
    assert_eq!(store.get(a), Some(&8));
    assert_eq!(store.bound(), 4);
    assert_eq!(store.remove(a), Some(8));
    assert_eq!(store.remove(a), None);
    assert_eq!(store.remove(Entity { id: 99 }), None);
    assert!(!store.contains(a));
    store.clear();
    assert!(!store.contains(b));
}

#[test]
fn deleted_entities_lose_their_fragments_at_the_next_purge() {
    let mut entities = Entities::new();
    let a = entities.create();
    let b = entities.create();
    assert_eq!((a.id, b.id, entities.bound()), (0, 1, 2));
    let mut store: Store<i32> = Store::new();
    store.insert(a, 1);
    store.insert(b, 2);
    store.insert(Entity { id: 5 }, 6);
    assert!(entities.delete(a));
    assert!(!entities.delete(a));
    assert!(!entities.delete(Entity { id: 7 }));
    assert!(!entities.alive(a) && entities.alive(b));
    // Until the purge the fragment is still there.
    assert_eq!(store.get(a), Some(&1));
    store.purge(&entities);
    assert_eq!(store.get(a), None);
    assert_eq!(store.get(b), Some(&2));
    // A fragment of an entity that was never made is none of the dead.
    assert_eq!(store.get(Entity { id: 5 }), Some(&6));
    // Identifiers are not used twice.
    assert_eq!(entities.create().id, 2);
}
