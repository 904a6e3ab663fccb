use spell_thief::components::{
    BlocksTile, CombatStats, Monster, Name, Player, SufferDamage, Viewshed, WantsToMelee,
};
use spell_thief::damage_system::{delete_the_dead, sum_of, DamageSystem};
use spell_thief::geometry::Position;
use spell_thief::map::{TileMap, TileType};
use spell_thief::map_indexing_system::MapIndexingSystem;
use spell_thief::melee_combat_system::{damage_of_hit, MeleeCombatSystem};
use spell_thief::monster_ai_system::{MonsterAI, MonsterPlan, PathRequest};
use spell_thief::run_state::RunState;
use spell_thief::store::Entity;
use spell_thief::visibility_system::VisibilitySystem;
use spell_thief::world::World;

fn open_world() -> World {
    let mut map = TileMap::new_empty_map(1);
    for y in 1..42 {
        for x in 1..65 {
            let idx = map.xy_idx(x, y);
            map.tiles[idx] = TileType::Floor;
        }
    }
    World::new(map)
}

fn fighter(world: &mut World, x: i32, y: i32, hp: i32, attack: i32, defense: i32) -> Entity {
    let e = world.create_entity();
    world.positions.insert(e, Position { x, y });
    world.combat_stats.insert(e, CombatStats { max_hp: hp, hp, defense, attack });
    e
}

fn looker(world: &mut World, e: Entity, range: i32) {
    world.viewsheds.insert(e, Viewshed { visible_tiles: Vec::new(), range, dirty: true });
}

#[test]
fn indexing_lists_occupants_and_blocks_walls_and_blockers() {
    let mut world = open_world();
    let a = fighter(&mut world, 5, 5, 10, 1, 1);
    let b = fighter(&mut world, 5, 5, 10, 1, 1);
    let c = fighter(&mut world, 6, 5, 10, 1, 1);
    world.kinds.blocks_tile.insert(c, BlocksTile {});
    // Stale entries from an earlier tick.
    world.map.tile_content[0].push(a);
    world.map.blocked[100] = true;

    MapIndexingSystem {}.run(&mut world);

    let at = |x: i32, y: i32| (y * 66 + x) as usize;
    assert_eq!(world.map.tile_content[at(5, 5)], vec![a, b]);
    assert_eq!(world.map.tile_content[at(6, 5)], vec![c]);
    assert!(world.map.tile_content[0].is_empty());
    assert!(world.map.blocked[0]);
    assert!(!world.map.blocked[at(5, 5)]);
    assert!(world.map.blocked[at(6, 5)]);
    assert!(!world.map.blocked[100 + 66]);
    for (i, tile) in world.map.tiles.iter().enumerate() {
        if i != at(6, 5) {
            assert_eq!(world.map.blocked[i], *tile == TileType::Wall);
        }
    }
}

#[test]
fn indexing_twice_changes_nothing() {
    let mut world = open_world();
    let a = fighter(&mut world, 5, 5, 10, 1, 1);
    let b = fighter(&mut world, 7, 9, 10, 1, 1);
    world.kinds.blocks_tile.insert(b, BlocksTile {});
    MapIndexingSystem {}.run(&mut world);
    let blocked = world.map.blocked.clone();
    let content = world.map.tile_content.clone();
    MapIndexingSystem {}.run(&mut world);
    assert_eq!(world.map.blocked, blocked);
    assert_eq!(world.map.tile_content, content);
    assert_eq!(world.map.tile_content[5 * 66 + 5], vec![a]);
}

#[test]
fn melee_damage_is_attack_less_defense() {
    assert_eq!(damage_of_hit(8, 3), 5);
    assert_eq!(damage_of_hit(3, 8), 0);
    assert_eq!(damage_of_hit(4, 4), 0);
    assert_eq!(damage_of_hit(i32::MAX, -1), i32::MAX);
    assert_eq!(damage_of_hit(i32::MIN, i32::MAX), 0);
}

#[test]
fn adjacent_monster_hits_for_five() {
    let mut world = open_world();
    let player = fighter(&mut world, 10, 10, 30, 5, 3);
    world.player = player;
    world.player_pos = Position { x: 10, y: 10 };
    let orc = fighter(&mut world, 11, 10, 16, 8, 1);
    world.kinds.monsters.insert(orc, Monster {});
    looker(&mut world, orc, 8);

    VisibilitySystem {}.run(&mut world);
    assert_eq!(MonsterAI::plan(&world, orc), MonsterPlan::Attack);
    assert_eq!(MonsterAI::run(&mut world, 0), None);
    assert_eq!(world.intents.melee.get(orc), Some(&WantsToMelee { target: player }));

    MeleeCombatSystem {}.run(&mut world);
    assert_eq!(world.suffer_damage.get(player).unwrap().amount, vec![5]);
    assert!(!world.intents.melee.contains(orc));

    DamageSystem {}.run(&mut world);
    assert_eq!(world.combat_stats.get(player).unwrap().hp, 25);
    assert!(!world.suffer_damage.contains(player));
}

#[test]
fn a_hit_that_does_no_damage_leaves_no_trace() {
    let mut world = open_world();
    let knight = fighter(&mut world, 10, 10, 30, 5, 9);
    let rat = fighter(&mut world, 11, 10, 2, 1, 0);
    world.intents.melee.insert(rat, WantsToMelee { target: knight });
    // A wish to hit something without combat stats is dropped.
    let stone = world.create_entity();
    world.intents.melee.insert(knight, WantsToMelee { target: stone });
    MeleeCombatSystem {}.run(&mut world);
    assert!(!world.suffer_damage.contains(knight));
    assert!(!world.suffer_damage.contains(stone));
}

#[test]
fn damage_adds_up_and_stops_at_zero() {
    let mut world = open_world();
    let a = fighter(&mut world, 10, 10, 30, 5, 3);
    let b = fighter(&mut world, 11, 10, 6, 5, 3);
    SufferDamage::new_damage(&mut world.suffer_damage, a, 4);
    SufferDamage::new_damage(&mut world.suffer_damage, a, 7);
    SufferDamage::new_damage(&mut world.suffer_damage, b, 5);
    SufferDamage::new_damage(&mut world.suffer_damage, b, 5);
    assert_eq!(world.suffer_damage.get(a).unwrap().amount, vec![4, 7]);

    DamageSystem {}.run(&mut world);

    assert_eq!(world.combat_stats.get(a).unwrap().hp, 19);
    assert_eq!(world.combat_stats.get(b).unwrap().hp, 0);
    assert_eq!(world.combat_stats.get(b).unwrap().max_hp, 6);
    assert!(!world.suffer_damage.contains(a));
    assert_eq!(sum_of(&vec![i32::MAX, i32::MAX, 2]), 2 * (i32::MAX as i128) + 2);
    assert_eq!(sum_of(&Vec::new()), 0);
}

#[test]
fn the_dead_are_deleted_with_their_fragments() {
    let mut world = open_world();
    let player = fighter(&mut world, 10, 10, 30, 5, 3);
    world.kinds.players.insert(player, Player {});
    world.player = player;
    let orc = fighter(&mut world, 11, 10, 0, 5, 3);
    world.kinds.names.insert(orc, Name { name: "Orc".to_string() });
    let goblin = fighter(&mut world, 12, 10, 4, 5, 3);
    world.run_state = RunState::AwaitingInput;

    delete_the_dead(&mut world);

    assert!(!world.entities.alive(orc));
    assert!(!world.positions.contains(orc));
    assert!(!world.combat_stats.contains(orc));
    assert!(!world.kinds.names.contains(orc));
    assert!(world.entities.alive(goblin));
    assert!(world.positions.contains(goblin));
    assert!(world.entities.alive(player));
    assert_eq!(world.run_state, RunState::AwaitingInput);
}

#[test]
fn a_dead_player_ends_the_game_and_stays() {
    let mut world = open_world();
    let player = fighter(&mut world, 10, 10, 0, 5, 3);
    world.kinds.players.insert(player, Player {});
    world.player = player;
    world.run_state = RunState::MonsterTurn;

    delete_the_dead(&mut world);

    assert!(world.entities.alive(player));
    assert!(world.combat_stats.contains(player));
    assert_eq!(world.run_state, RunState::GameOver);
}

#[test]
fn the_player_sees_the_room_and_not_through_walls() {
    let mut world = open_world();
    let player = fighter(&mut world, 10, 10, 30, 5, 3);
    world.kinds.players.insert(player, Player {});
    world.player = player;
    looker(&mut world, player, 8);
    // A wall across the corridor east of the player.
    for y in 1..42 {
        let idx = world.map.xy_idxi32(13, y);
        world.map.tiles[idx] = TileType::Wall;
    }

    VisibilitySystem {}.run(&mut world);

    let shed = world.viewsheds.get(player).unwrap();
    assert!(!shed.dirty);
    assert_eq!(shed.range, 8);
    let sees = |x: i32, y: i32| shed.visible_tiles.contains(&Position { x, y });
    assert!(sees(10, 10));
    assert!(sees(11, 10));
    assert!(sees(5, 10));
    // The wall itself is seen, what lies behind it is not.
    assert!(sees(13, 10));
    assert!(!sees(14, 10));
    assert!(!sees(16, 10));
    // Out of range.
    assert!(!sees(10, 20));
    // No tile twice, all of them on the map.
    for (i, p) in shed.visible_tiles.iter().enumerate() {
        assert!(p.x >= 0 && p.x < 66 && p.y >= 0 && p.y < 43);
        assert!(!shed.visible_tiles[i + 1..].contains(p));
    }
    let idx = |x: i32, y: i32| (y * 66 + x) as usize;
    for y in 0..43 {
        for x in 0..66 {
            assert_eq!(world.map.visible_tiles[idx(x, y)], sees(x, y));
            assert_eq!(world.map.revealed_tiles[idx(x, y)], sees(x, y));
        }
    }
}

#[test]
fn what_was_revealed_stays_revealed() {
    let mut world = open_world();
    let player = fighter(&mut world, 10, 10, 30, 5, 3);
    world.kinds.players.insert(player, Player {});
    world.player = player;
    looker(&mut world, player, 4);
    VisibilitySystem {}.run(&mut world);
    let first = world.map.revealed_tiles.clone();
    assert!(first[10 * 66 + 10]);

    // The player walks far away and looks again.
    world.positions.insert(player, Position { x: 40, y: 30 });
    looker(&mut world, player, 4);
    VisibilitySystem {}.run(&mut world);

    for i in 0..first.len() {
        if first[i] {
            assert!(world.map.revealed_tiles[i]);
        }
    }
    assert!(world.map.revealed_tiles[30 * 66 + 40]);
    assert!(world.map.visible_tiles[30 * 66 + 40]);
    assert!(!world.map.visible_tiles[10 * 66 + 10]);
}

#[test]
fn a_monster_looks_without_revealing() {
    let mut world = open_world();
    let orc = fighter(&mut world, 10, 10, 30, 5, 3);
    world.kinds.monsters.insert(orc, Monster {});
    looker(&mut world, orc, 3);
    // A clean viewshed is left alone.
    let idle = fighter(&mut world, 20, 20, 30, 5, 3);
    world.viewsheds.insert(idle, Viewshed { visible_tiles: Vec::new(), range: 3, dirty: false });

    VisibilitySystem {}.run(&mut world);

    assert!(world.viewsheds.get(orc).unwrap().visible_tiles.contains(&Position { x: 12, y: 10 }));
    assert!(world.viewsheds.get(idle).unwrap().visible_tiles.is_empty());
    assert!(world.map.revealed_tiles.iter().all(|r| !r));
    assert!(world.map.visible_tiles.iter().all(|v| !v));
}

#[test]
fn every_dirty_viewshed_is_computed_whatever_its_range() {
    let mut world = open_world();
    // A range far beyond the level sees the whole open ground.
    let far = fighter(&mut world, 30, 30, 30, 5, 3);
    looker(&mut world, far, 300);
    let farthest = fighter(&mut world, 31, 30, 30, 5, 3);
    looker(&mut world, farthest, i32::MAX);
    // A negative range counts by its size.
    let back = fighter(&mut world, 10, 10, 30, 5, 3);
    looker(&mut world, back, -3);
    let forth = fighter(&mut world, 10, 10, 30, 5, 3);
    looker(&mut world, forth, 3);
    let least = fighter(&mut world, 20, 20, 30, 5, 3);
    looker(&mut world, least, i32::MIN);
    let blind = fighter(&mut world, 50, 5, 30, 5, 3);
    looker(&mut world, blind, 0);

    VisibilitySystem {}.run(&mut world);

    for e in [far, farthest, back, forth, least, blind] {
        assert!(!world.viewsheds.get(e).unwrap().dirty);
    }
    let tiles = |e: Entity| {
        let mut seen = world.viewsheds.get(e).unwrap().visible_tiles.clone();
        seen.sort_by_key(|p| (p.x, p.y));
        seen
    };
    assert_eq!(world.viewsheds.get(far).unwrap().range, 300);
    assert!(tiles(far).contains(&Position { x: 1, y: 1 }));
    assert!(tiles(far).contains(&Position { x: 64, y: 41 }));
    assert!(tiles(farthest).contains(&Position { x: 1, y: 41 }));
    assert!(tiles(least).contains(&Position { x: 64, y: 1 }));
    assert_eq!(world.viewsheds.get(back).unwrap().range, -3);
    assert_eq!(tiles(back), tiles(forth));
    assert!(tiles(back).contains(&Position { x: 13, y: 10 }));
    assert!(!tiles(back).contains(&Position { x: 14, y: 10 }));
    assert_eq!(tiles(blind), vec![Position { x: 50, y: 5 }]);
    assert_eq!(spell_thief::visibility_system::range_of_sight(78), 78);
    assert_eq!(spell_thief::visibility_system::range_of_sight(256), 255);
    assert_eq!(spell_thief::visibility_system::range_of_sight(-256), 255);
    assert_eq!(spell_thief::visibility_system::range_of_sight(-78), 78);
}

#[test]
fn a_monster_that_sees_the_player_far_off_asks_for_a_path() {
    let mut world = open_world();
    let player = fighter(&mut world, 10, 10, 30, 5, 3);
    world.player = player;
    world.player_pos = Position { x: 10, y: 10 };
    let orc = fighter(&mut world, 14, 10, 16, 8, 1);
    world.kinds.monsters.insert(orc, Monster {});
    looker(&mut world, orc, 8);
    let blind = fighter(&mut world, 30, 30, 16, 8, 1);
    world.kinds.monsters.insert(blind, Monster {});
    looker(&mut world, blind, 8);
    VisibilitySystem {}.run(&mut world);

    let start = 10 * 66 + 14;
    let end = 10 * 66 + 10;
    assert_eq!(MonsterAI::plan(&world, orc), MonsterPlan::Chase { start, end });
    assert_eq!(MonsterAI::plan(&world, blind), MonsterPlan::Idle);
    assert_eq!(MonsterAI::plan(&world, player), MonsterPlan::Idle);
    assert_eq!(MonsterAI::run(&mut world, 0), Some(PathRequest { monster: orc, start, end }));

    // The host found a path; the monster takes its first step.
    MonsterAI::follow(&mut world, orc, &vec![start, start - 1, start - 2]);
    assert_eq!(world.positions.get(orc), Some(&Position { x: 13, y: 10 }));
    assert!(world.viewsheds.get(orc).unwrap().dirty);
    assert!(world.map.blocked[start - 1]);
    assert!(!world.map.blocked[start]);

    // Nobody after the orc needs a path.
    assert_eq!(MonsterAI::run(&mut world, orc.id + 1), None);
}

#[test]
fn a_path_without_a_second_tile_moves_nobody() {
    let mut world = open_world();
    let orc = fighter(&mut world, 14, 10, 16, 8, 1);
    looker(&mut world, orc, 8);
    MonsterAI::follow(&mut world, orc, &Vec::new());
    MonsterAI::follow(&mut world, orc, &vec![10 * 66 + 14]);
    MonsterAI::follow(&mut world, orc, &vec![10 * 66 + 14, 5000]);
    assert_eq!(world.positions.get(orc), Some(&Position { x: 14, y: 10 }));
}

#[test]
fn the_level_tells_the_console_library_its_size_and_its_walls() {
    let mut map = TileMap::new_empty_map(1);
    let floor = map.xy_idx(5, 5);
    map.tiles[floor] = TileType::Floor;
    let stairs = map.xy_idx(6, 5);
    map.tiles[stairs] = TileType::DownStairs;
    let size = rltk::Algorithm2D::dimensions(&map);
    assert_eq!((size.x, size.y), (66, 43));
    assert!(rltk::BaseMap::is_opaque(&map, 0));
    assert!(!rltk::BaseMap::is_opaque(&map, floor));
    assert!(!rltk::BaseMap::is_opaque(&map, stairs));
    assert!(rltk::BaseMap::is_opaque(&map, 2837));
    // An index beyond the last tile names no wall.
    assert!(!rltk::BaseMap::is_opaque(&map, 2838));
    // The library's default bounds and indices follow from the size.
    assert!(rltk::Algorithm2D::in_bounds(&map, rltk::Point::constant(65, 42)));
    assert!(!rltk::Algorithm2D::in_bounds(&map, rltk::Point::constant(66, 42)));
    assert_eq!(rltk::Algorithm2D::point2d_to_index(&map, rltk::Point::constant(6, 5)), stairs);
}
