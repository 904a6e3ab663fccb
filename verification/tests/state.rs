use spell_thief::components::{
    AreaOfEffect, CombatStats, InBackpack, InflictsDamage, Item, KnownSpell, KnownSpells,
    MagicStats, Monster, Name, Player, ProvidesHealing, Spell, Viewshed, WantsToMelee,
    WantsToPickupItem, WantsToUseItem, Consumable,
};
use spell_thief::geometry::Position;
use spell_thief::input::{Input, Key};
use spell_thief::map::{TileMap, TileType};
use spell_thief::monster_ai_system::PathRequest;
use spell_thief::player::{
    command_of, get_item, has_spell_in_slot, player_input, try_move_player, try_next_level,
    Command,
};
use spell_thief::run_state::{MainMenuSelection, RunState};
use spell_thief::state::{world_size, State};
use spell_thief::store::Entity;

fn new_game() -> (State, Entity) {
    let mut map = TileMap::new_empty_map(1);
    for y in 1..42 {
        for x in 1..65 {
            let idx = map.xy_idx(x, y);
            map.tiles[idx] = TileType::Floor;
        }
    }
    let mut gs = State::new(map);
    let player = gs.ecs.create_entity();
    gs.ecs.positions.insert(player, Position { x: 10, y: 10 });
    gs.ecs.kinds.players.insert(player, Player {});
    gs.ecs.kinds.names.insert(player, Name { name: "Player".to_string() });
    gs.ecs.combat_stats.insert(player, CombatStats { max_hp: 30, hp: 30, defense: 2, attack: 5 });
    gs.ecs.magic_stats.insert(player, MagicStats { max_mana: 5, mana: 5 });
    gs.ecs.viewsheds.insert(player, Viewshed { visible_tiles: Vec::new(), range: 8, dirty: true });
    gs.ecs.player = player;
    gs.ecs.player_pos = Position { x: 10, y: 10 };
    (gs, player)
}

fn key(k: Key) -> Input {
    Input { key: Some(k), mouse_pos: Position { x: 0, y: 0 }, left_click: false }
}

fn no_input() -> Input {
    Input { key: None, mouse_pos: Position { x: 0, y: 0 }, left_click: false }
}

fn monster(gs: &mut State, x: i32, y: i32) -> Entity {
    let e = gs.ecs.create_entity();
    gs.ecs.positions.insert(e, Position { x, y });
    gs.ecs.kinds.monsters.insert(e, Monster {});
    gs.ecs.kinds.names.insert(e, Name { name: "Orc".to_string() });
    gs.ecs.combat_stats.insert(e, CombatStats { max_hp: 16, hp: 16, defense: 1, attack: 4 });
    gs.ecs.viewsheds.insert(e, Viewshed { visible_tiles: Vec::new(), range: 8, dirty: true });
    e
}

#[test]
fn the_turns_follow_one_another() {
    let (mut gs, player) = new_game();
    assert_eq!(gs.ecs.run_state, RunState::PreRun);
    assert_eq!(gs.tick(&no_input()), None);
    assert_eq!(gs.ecs.run_state, RunState::AwaitingInput);
    // The first tick has let the player look around.
    assert!(!gs.ecs.viewsheds.get(player).unwrap().dirty);
    assert!(gs.ecs.map.revealed_tiles[10 * 66 + 10]);

    // Without a key the game goes on waiting.
    assert_eq!(gs.tick(&no_input()), None);
    assert_eq!(gs.ecs.run_state, RunState::AwaitingInput);

    assert_eq!(gs.tick(&key(Key::Right)), None);
    assert_eq!(gs.ecs.run_state, RunState::PlayerTurn);
    assert_eq!(gs.ecs.player_pos, Position { x: 11, y: 10 });
    assert_eq!(gs.tick(&no_input()), None);
    assert_eq!(gs.ecs.run_state, RunState::MonsterTurn);
    assert_eq!(gs.tick(&no_input()), None);
    assert_eq!(gs.ecs.run_state, RunState::AwaitingInput);
    assert!(gs.ecs.map.revealed_tiles[10 * 66 + 10]);
    assert!(gs.ecs.map.tile_content[10 * 66 + 11].contains(&player));
}

#[test]
fn descending_needs_a_stairway() {
    let (mut gs, _player) = new_game();
    gs.ecs.run_state = RunState::AwaitingInput;
    assert_eq!(gs.tick(&key(Key::Period)), None);
    assert_eq!(gs.ecs.run_state, RunState::AwaitingInput);
    assert_eq!(gs.ecs.log.entries, vec!["There is no way down from here.".to_string()]);

    let idx = gs.ecs.map.xy_idxi32(10, 10);
    gs.ecs.map.tiles[idx] = TileType::DownStairs;
    assert_eq!(gs.tick(&key(Key::Period)), None);
    assert_eq!(gs.ecs.run_state, RunState::NextLevel);
    assert_eq!(gs.ecs.log.entries.len(), 1);
}

#[test]
fn try_next_level_answers_for_the_players_tile() {
    let (mut gs, _player) = new_game();
    assert!(!try_next_level(&mut gs.ecs));
    assert_eq!(gs.ecs.log.entries, vec!["There is no way down from here.".to_string()]);
    let idx = gs.ecs.map.xy_idxi32(10, 10);
    gs.ecs.map.tiles[idx] = TileType::DownStairs;
    assert!(try_next_level(&mut gs.ecs));
    assert_eq!(gs.ecs.log.entries.len(), 1);
}

#[test]
fn keys_map_to_commands() {
    assert_eq!(command_of(None), Command::Nothing);
    assert_eq!(command_of(Some(Key::Left)), Command::Step(-1, 0));
    assert_eq!(command_of(Some(Key::Numpad4)), Command::Step(-1, 0));
    assert_eq!(command_of(Some(Key::Letter(7))), Command::Step(-1, 0));
    assert_eq!(command_of(Some(Key::Letter(11))), Command::Step(1, 0));
    assert_eq!(command_of(Some(Key::Up)), Command::Step(0, -1));
    assert_eq!(command_of(Some(Key::Letter(10))), Command::Step(0, -1));
    assert_eq!(command_of(Some(Key::Numpad2)), Command::Step(0, 1));
    assert_eq!(command_of(Some(Key::Letter(9))), Command::Step(0, 1));
    assert_eq!(command_of(Some(Key::Numpad9)), Command::Step(1, -1));
    assert_eq!(command_of(Some(Key::Letter(24))), Command::Step(1, -1));
    assert_eq!(command_of(Some(Key::Numpad7)), Command::Step(-1, -1));
    assert_eq!(command_of(Some(Key::Letter(20))), Command::Step(-1, -1));
    assert_eq!(command_of(Some(Key::Numpad3)), Command::Step(1, 1));
    assert_eq!(command_of(Some(Key::Letter(13))), Command::Step(1, 1));
    assert_eq!(command_of(Some(Key::Numpad1)), Command::Step(-1, 1));
    assert_eq!(command_of(Some(Key::Letter(1))), Command::Step(-1, 1));
    assert_eq!(command_of(Some(Key::Key1)), Command::Cast);
    assert_eq!(command_of(Some(Key::Letter(6))), Command::PickUp);
    assert_eq!(command_of(Some(Key::Numpad5)), Command::Wait);
    assert_eq!(command_of(Some(Key::Space)), Command::Wait);
    assert_eq!(command_of(Some(Key::Letter(8))), Command::OpenInventory);
    assert_eq!(command_of(Some(Key::Letter(3))), Command::OpenDrop);
    assert_eq!(command_of(Some(Key::Letter(17))), Command::OpenRemove);
    assert_eq!(command_of(Some(Key::Escape)), Command::Save);
    assert_eq!(command_of(Some(Key::Period)), Command::Descend);
    assert_eq!(command_of(Some(Key::Letter(0))), Command::Nothing);
    assert_eq!(command_of(Some(Key::Other)), Command::Nothing);
}

#[test]
fn menu_keys_open_the_menus() {
    let (mut gs, _player) = new_game();
    assert_eq!(player_input(&mut gs, Some(Key::Letter(8)), world_size()), RunState::ShowInventory);
    assert_eq!(player_input(&mut gs, Some(Key::Letter(3)), world_size()), RunState::ShowDropItem);
    assert_eq!(player_input(&mut gs, Some(Key::Letter(17)), world_size()), RunState::ShowRemoveItem);
    assert_eq!(player_input(&mut gs, Some(Key::Escape), world_size()), RunState::SaveGame);
    assert_eq!(player_input(&mut gs, Some(Key::Space), world_size()), RunState::PlayerTurn);
    assert_eq!(player_input(&mut gs, None, world_size()), RunState::AwaitingInput);
    assert_eq!(player_input(&mut gs, Some(Key::Other), world_size()), RunState::AwaitingInput);
}

#[test]
fn walking_into_a_wall_or_off_the_map_moves_nobody() {
    let (mut gs, player) = new_game();
    gs.ecs.positions.insert(player, Position { x: 1, y: 1 });
    gs.ecs.player_pos = Position { x: 1, y: 1 };
    spell_thief::map_indexing_system::MapIndexingSystem {}.run(&mut gs.ecs);
    try_move_player(-1, 0, &mut gs.ecs, world_size());
    assert_eq!(gs.ecs.positions.get(player), Some(&Position { x: 1, y: 1 }));
    gs.ecs.positions.insert(player, Position { x: 0, y: 0 });
    try_move_player(-1, -1, &mut gs.ecs, world_size());
    assert_eq!(gs.ecs.positions.get(player), Some(&Position { x: 0, y: 0 }));
    assert_eq!(gs.ecs.player_pos, Position { x: 1, y: 1 });
}

#[test]
fn walking_into_a_monster_is_an_attack() {
    let (mut gs, player) = new_game();
    let orc = monster(&mut gs, 11, 11);
    spell_thief::map_indexing_system::MapIndexingSystem {}.run(&mut gs.ecs);
    gs.ecs.viewsheds.insert(player, Viewshed { visible_tiles: Vec::new(), range: 8, dirty: false });
    try_move_player(1, 1, &mut gs.ecs, world_size());
    assert_eq!(gs.ecs.intents.melee.get(player), Some(&WantsToMelee { target: orc }));
    assert_eq!(gs.ecs.positions.get(player), Some(&Position { x: 10, y: 10 }));
    assert!(!gs.ecs.viewsheds.get(player).unwrap().dirty);
    // A free tile is walked onto, and the viewshed goes stale.
    try_move_player(-1, 0, &mut gs.ecs, world_size());
    assert_eq!(gs.ecs.positions.get(player), Some(&Position { x: 9, y: 10 }));
    assert_eq!(gs.ecs.player_pos, Position { x: 9, y: 10 });
    assert!(gs.ecs.viewsheds.get(player).unwrap().dirty);
}

#[test]
fn reaching_down_asks_for_the_item_or_remarks_on_the_floor() {
    let (mut gs, player) = new_game();
    get_item(&mut gs.ecs);
    assert_eq!(gs.ecs.log.entries, vec!["There is nothing here to pick up.".to_string()]);
    assert!(!gs.ecs.intents.pickup.contains(player));

    let potion = gs.ecs.create_entity();
    gs.ecs.kinds.items.insert(potion, Item {});
    gs.ecs.positions.insert(potion, Position { x: 10, y: 10 });
    let elsewhere = gs.ecs.create_entity();
    gs.ecs.kinds.items.insert(elsewhere, Item {});
    gs.ecs.positions.insert(elsewhere, Position { x: 10, y: 11 });
    get_item(&mut gs.ecs);
    assert_eq!(
        gs.ecs.intents.pickup.get(player),
        Some(&WantsToPickupItem { collected_by: player, item: potion })
    );
    assert_eq!(gs.ecs.log.entries.len(), 1);
}

#[test]
fn the_inventory_menu_uses_the_selected_item() {
    let (mut gs, player) = new_game();
    let potion = gs.ecs.create_entity();
    gs.ecs.kinds.items.insert(potion, Item {});
    gs.ecs.kinds.names.insert(potion, Name { name: "Health Potion".to_string() });
    gs.ecs.kinds.consumables.insert(potion, Consumable {});
    gs.ecs.kinds.provides_healing.insert(potion, ProvidesHealing { heal_amount: 8 });
    gs.ecs.in_backpack.insert(potion, InBackpack { owner: player });
    gs.ecs.combat_stats.insert(player, CombatStats { max_hp: 30, hp: 25, defense: 2, attack: 5 });
    gs.ecs.run_state = RunState::ShowInventory;

    // No key, and a letter past the end of the list: the menu stays open.
    gs.tick(&no_input());
    assert_eq!(gs.ecs.run_state, RunState::ShowInventory);
    gs.tick(&key(Key::Letter(1)));
    assert_eq!(gs.ecs.run_state, RunState::ShowInventory);

    gs.tick(&key(Key::Letter(0)));
    assert_eq!(gs.ecs.run_state, RunState::PlayerTurn);
    assert_eq!(
        gs.ecs.intents.use_item.get(player),
        Some(&WantsToUseItem { item: potion, target: None })
    );
    gs.tick(&no_input());
    assert_eq!(gs.ecs.run_state, RunState::MonsterTurn);
    assert_eq!(gs.ecs.combat_stats.get(player).unwrap().hp, 30);
    assert!(!gs.ecs.entities.alive(potion));
    assert!(!gs.ecs.in_backpack.contains(potion));
    assert_eq!(gs.ecs.log.entries, vec!["You use the Health Potion, healing 8 hp.".to_string()]);
}

#[test]
fn escape_closes_a_menu() {
    let (mut gs, _player) = new_game();
    for state in [RunState::ShowInventory, RunState::ShowDropItem, RunState::ShowRemoveItem] {
        gs.ecs.run_state = state;
        gs.tick(&key(Key::Escape));
        assert_eq!(gs.ecs.run_state, RunState::AwaitingInput);
    }
}

#[test]
fn casting_opens_the_targeting_and_a_click_casts() {
    let (mut gs, player) = new_game();
    let known = spell_thief::spells::fireball(&mut gs.ecs);
    assert_eq!(known.name, "fireball");
    assert_eq!(known.mana_cost, 1);
    assert_eq!(known.components, vec!["ranged", "deals damage", "destroys walls", "area of effect"]);
    let spell = Entity { id: player.id + 1 };
    assert_eq!(gs.ecs.kinds.spells.get(spell).unwrap().range, 6);
    assert_eq!(gs.ecs.kinds.inflicts_damage.get(spell), Some(&InflictsDamage { damage: 20 }));
    assert_eq!(gs.ecs.kinds.area_of_effect.get(spell), Some(&AreaOfEffect { radius: 3 }));
    assert!(gs.ecs.kinds.destroys_walls.contains(spell));

    // Before the spell is learnt the key is a plain turn.
    assert!(!has_spell_in_slot(&gs.ecs, 1));
    assert_eq!(player_input(&mut gs, Some(Key::Key1), world_size()), RunState::PlayerTurn);
    gs.ecs.kinds.known_spells.insert(player, KnownSpells { spells: vec![known] });
    assert!(has_spell_in_slot(&gs.ecs, 1));
    assert!(!has_spell_in_slot(&gs.ecs, 2));
    assert!(!has_spell_in_slot(&gs.ecs, -1));

    gs.tick(&no_input());
    assert_eq!(gs.ecs.run_state, RunState::AwaitingInput);
    gs.tick(&key(Key::Key1));
    assert_eq!(gs.ecs.run_state, RunState::ShowTargeting { range: 6, targetable: spell });

    // A click out of range cancels.
    let far = Input { key: None, mouse_pos: Position { x: 30, y: 30 }, left_click: true };
    gs.tick(&far);
    assert_eq!(gs.ecs.run_state, RunState::AwaitingInput);

    gs.ecs.run_state = RunState::ShowTargeting { range: 6, targetable: spell };
    let hover = Input { key: None, mouse_pos: Position { x: 14, y: 10 }, left_click: false };
    gs.tick(&hover);
    assert_eq!(gs.ecs.run_state, RunState::ShowTargeting { range: 6, targetable: spell });
    let click = Input { key: None, mouse_pos: Position { x: 14, y: 10 }, left_click: true };
    gs.tick(&click);
    assert_eq!(gs.ecs.run_state, RunState::PlayerTurn);
    assert_eq!(
        gs.ecs.intents.use_item.get(player),
        Some(&WantsToUseItem { item: spell, target: Some(Position { x: 14, y: 10 }) })
    );
    gs.tick(&no_input());
    assert_eq!(gs.ecs.magic_stats.get(player).unwrap().mana, 4);
    assert_eq!(gs.ecs.log.entries, vec!["You cast fireball, costing 1 mana.".to_string()]);
}

#[test]
fn a_known_spell_without_an_entity_cannot_be_cast() {
    let (mut gs, player) = new_game();
    let ghost_bolt =
        KnownSpell { name: "ghost bolt".to_string(), mana_cost: 1, components: Vec::new() };
    let other = gs.ecs.create_entity();
    gs.ecs.kinds.spells.insert(other, Spell { name: "icicle".to_string(), range: 4, mana_cost: 1 });
    let icicle = KnownSpell { name: "icicle".to_string(), mana_cost: 1, components: Vec::new() };
    gs.ecs.kinds.known_spells.insert(player, KnownSpells { spells: vec![ghost_bolt] });
    assert_eq!(player_input(&mut gs, Some(Key::Key1), world_size()), RunState::PlayerTurn);
    gs.ecs.kinds.known_spells.remove(player);
    let ghost_bolt =
        KnownSpell { name: "ghost bolt".to_string(), mana_cost: 1, components: Vec::new() };
    gs.ecs.kinds.known_spells.insert(player, KnownSpells { spells: vec![ghost_bolt, icicle] });
    assert_eq!(
        player_input(&mut gs, Some(Key::Key1), world_size()),
        RunState::ShowTargeting { range: 4, targetable: other }
    );
}

#[test]
fn game_over_waits_for_any_key() {
    let (mut gs, _player) = new_game();
    gs.ecs.run_state = RunState::GameOver;
    gs.tick(&no_input());
    assert_eq!(gs.ecs.run_state, RunState::GameOver);
    gs.tick(&key(Key::Other));
    assert_eq!(
        gs.ecs.run_state,
        RunState::MainMenu { menu_selection: MainMenuSelection::NewGame }
    );
}

#[test]
fn the_host_is_asked_for_the_path_of_a_chasing_monster() {
    let (mut gs, player) = new_game();
    let orc = monster(&mut gs, 14, 10);
    let start = 10 * 66 + 14;
    let end = 10 * 66 + 10;

    let request = gs.tick(&no_input());
    assert_eq!(request, Some(PathRequest { monster: orc, start, end }));
    assert_eq!(gs.waiting, request);
    // The tick is not over: the turn has not passed on.
    assert_eq!(gs.ecs.run_state, RunState::PreRun);

    assert_eq!(gs.path_found(&vec![start, start - 1, start - 2, start - 3, end]), None);
    assert_eq!(gs.waiting, None);
    assert_eq!(gs.ecs.run_state, RunState::AwaitingInput);
    assert_eq!(gs.ecs.positions.get(orc), Some(&Position { x: 13, y: 10 }));
    assert!(gs.ecs.map.tile_content[start - 1].contains(&orc));
    assert!(gs.ecs.positions.contains(player));
}

#[test]
fn a_monster_next_to_the_player_wears_it_down() {
    let (mut gs, player) = new_game();
    let orc = monster(&mut gs, 11, 10);
    gs.ecs.combat_stats.insert(orc, CombatStats { max_hp: 16, hp: 16, defense: 1, attack: 8 });
    gs.ecs.combat_stats.insert(player, CombatStats { max_hp: 30, hp: 30, defense: 3, attack: 5 });
    assert_eq!(gs.tick(&no_input()), None);
    assert_eq!(gs.ecs.combat_stats.get(player).unwrap().hp, 25);

    // With five hit points left the next blow kills, and the game is over.
    gs.ecs.combat_stats.insert(player, CombatStats { max_hp: 30, hp: 5, defense: 3, attack: 5 });
    gs.ecs.run_state = RunState::MonsterTurn;
    assert_eq!(gs.tick(&no_input()), None);
    assert_eq!(gs.ecs.combat_stats.get(player).unwrap().hp, 0);
    assert_eq!(gs.ecs.run_state, RunState::GameOver);
    assert!(gs.ecs.entities.alive(player));
}

#[test]
fn the_run_of_the_systems_leaves_the_fallen_for_the_tick_to_bury() {
    let (mut gs, _player) = new_game();
    let fighter = |gs: &mut State, x: i32, hp: i32, attack: i32| {
        let e = gs.ecs.create_entity();
        gs.ecs.positions.insert(e, Position { x, y: 30 });
        gs.ecs.combat_stats.insert(e, CombatStats { max_hp: 30, hp, defense: 3, attack });
        e
    };
    let defender = fighter(&mut gs, 20, 30, 1);
    let weak = fighter(&mut gs, 21, 3, 1);
    let first = fighter(&mut gs, 22, 30, 8);
    let second = fighter(&mut gs, 23, 30, 8);
    let third = fighter(&mut gs, 24, 30, 8);
    gs.ecs.intents.melee.insert(first, WantsToMelee { target: defender });
    gs.ecs.intents.melee.insert(second, WantsToMelee { target: defender });
    gs.ecs.intents.melee.insert(third, WantsToMelee { target: weak });
    // Stale entries from an earlier tick.
    gs.ecs.map.tile_content[5].push(defender);
    gs.ecs.run_state = RunState::PlayerTurn;

    assert_eq!(gs.run_systems(), None);

    // Both hits of five are summed; the weak one stops at nothing and is
    // still there to be seen.
    assert_eq!(gs.ecs.combat_stats.get(defender).unwrap().hp, 20);
    assert_eq!(gs.ecs.combat_stats.get(weak).unwrap().hp, 0);
    assert_eq!(gs.ecs.combat_stats.get(weak).unwrap().max_hp, 30);
    assert!(gs.ecs.entities.alive(weak));
    assert_eq!(gs.ecs.run_state, RunState::PlayerTurn);
    // Every list names exactly who stands on the tile.
    for (idx, content) in gs.ecs.map.tile_content.iter().enumerate() {
        let mut here = Vec::new();
        for id in 0..gs.ecs.entities.bound() {
            let e = Entity { id };
            if let Some(p) = gs.ecs.positions.get(e) {
                if (p.y * 66 + p.x) as usize == idx {
                    here.push(e);
                }
            }
        }
        assert_eq!(*content, here);
        assert!(gs.ecs.map.blocked[idx] || gs.ecs.map.tiles[idx] != TileType::Wall);
    }
    assert!(!gs.ecs.viewsheds.get(gs.ecs.player).unwrap().dirty);

    // A second run with nothing to do changes neither cache.
    let blocked = gs.ecs.map.blocked.clone();
    let content = gs.ecs.map.tile_content.clone();
    assert_eq!(gs.run_systems(), None);
    assert_eq!(gs.ecs.map.blocked, blocked);
    assert_eq!(gs.ecs.map.tile_content, content);

    gs.end_turn();
    assert_eq!(gs.ecs.run_state, RunState::MonsterTurn);
    assert!(!gs.ecs.entities.alive(weak));
    assert!(!gs.ecs.combat_stats.contains(weak));
    assert!(gs.ecs.entities.alive(defender));
}
