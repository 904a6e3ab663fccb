use spell_thief::components::{CombatStats, MagicStats, ProvidesHealing};
use spell_thief::geometry::Position;
use spell_thief::map::TileMap;
use spell_thief::map_builders::{all_rooms_fit, build_random_map};
use spell_thief::rect::Rect;
use spell_thief::spawner::{health_potion, player, random_monster, spawn};
use spell_thief::world::World;

#[test]
fn the_player_starts_hale_and_sighted() {
    let mut world = World::new(TileMap::new_empty_map(1));
    let e = player(&mut world, 12, 9);
    assert_eq!(e.id, 0);
    assert!(world.entities.alive(e));
    assert_eq!(world.positions.get(e), Some(&Position { x: 12, y: 9 }));
    assert!(world.kinds.players.contains(e));
    assert_eq!(world.kinds.names.get(e).unwrap().name, "Player");
    let look = world.kinds.renderables.get(e).unwrap();
    assert_eq!((look.glyph, look.render_order), (64, 0));
    assert_eq!(
        world.combat_stats.get(e),
        Some(&CombatStats { max_hp: 30, hp: 30, defense: 2, attack: 5 })
    );
    assert_eq!(world.magic_stats.get(e), Some(&MagicStats { max_mana: 5, mana: 5 }));
    let shed = world.viewsheds.get(e).unwrap();
    assert!(shed.dirty && shed.range == 8 && shed.visible_tiles.is_empty());
    assert!(world.kinds.known_spells.get(e).unwrap().spells.is_empty());
    assert!(world.check());
}

#[test]
fn a_roll_of_one_makes_an_orc() {
    let mut world = World::new(TileMap::new_empty_map(1));
    let orc = random_monster(&mut world, 3, 4, 1);
    let goblin = random_monster(&mut world, 5, 6, 2);
    assert_eq!(world.kinds.names.get(orc).unwrap().name, "Orc");
    assert_eq!(world.kinds.renderables.get(orc).unwrap().glyph, 111);
    assert_eq!(world.kinds.names.get(goblin).unwrap().name, "Goblin");
    assert_eq!(world.kinds.renderables.get(goblin).unwrap().glyph, 103);
    for e in [orc, goblin] {
        assert!(world.kinds.monsters.contains(e));
        assert!(world.kinds.blocks_tile.contains(e));
        assert_eq!(world.kinds.renderables.get(e).unwrap().render_order, 1);
        assert_eq!(
            world.combat_stats.get(e),
            Some(&CombatStats { max_hp: 16, hp: 16, defense: 1, attack: 4 })
        );
        assert!(world.viewsheds.get(e).unwrap().dirty);
        assert!(!world.kinds.players.contains(e));
    }
    assert_eq!(world.positions.get(goblin), Some(&Position { x: 5, y: 6 }));
}

#[test]
fn a_health_potion_heals_eight_once() {
    let mut world = World::new(TileMap::new_empty_map(1));
    let potion = health_potion(&mut world, 7, 7);
    assert_eq!(world.kinds.names.get(potion).unwrap().name, "Health Potion");
    assert_eq!(world.kinds.renderables.get(potion).unwrap().glyph, 33);
    assert!(world.kinds.items.contains(potion));
    assert!(world.kinds.consumables.contains(potion));
    assert_eq!(world.kinds.provides_healing.get(potion), Some(&ProvidesHealing { heal_amount: 8 }));
    assert!(!world.combat_stats.contains(potion));
}

#[test]
fn newcomers_stand_in_the_rooms_but_the_first() {
    for depth in 1..8 {
        let (map, start) = build_random_map(depth);
        assert!(all_rooms_fit(&map.rooms));
        let rooms = map;
        let mut world = World::new(TileMap::new_empty_map(depth));
        let hero = player(&mut world, start.x, start.y);
        spawn(&rooms, &mut world, depth);
        assert!(world.check());
        let others = world.entities.bound() - 1;
        assert!(others <= 6 * (rooms.rooms.len() - 1));
        assert_eq!(world.positions.get(hero), Some(&start));
        for id in 1..world.entities.bound() {
            let e = spell_thief::store::Entity { id };
            let p = world.positions.get(e).unwrap();
            let housed = rooms.rooms[1..]
                .iter()
                .any(|r| r.x1 < p.x && p.x <= r.x2 && r.y1 < p.y && p.y <= r.y2);
            assert!(housed);
            assert!(world.kinds.names.contains(e));
            assert!(world.kinds.monsters.contains(e) != world.kinds.items.contains(e));
        }
    }
}

#[test]
fn rooms_must_fit_on_the_level() {
    assert!(all_rooms_fit(&Vec::new()));
    assert!(all_rooms_fit(&vec![Rect::new(0, 0, 2, 2), Rect::new(55, 33, 9, 8)]));
    assert!(!all_rooms_fit(&vec![Rect::new(0, 0, 2, 2), Rect::new(56, 33, 9, 8)]));
    assert!(!all_rooms_fit(&vec![Rect::new(-1, 0, 5, 5)]));
    assert!(!all_rooms_fit(&vec![Rect::new(3, 3, 1, 5)]));
    assert!(!all_rooms_fit(&vec![Rect::new(3, 3, 5, 39)]));
}
