use spell_thief::components::{
    CombatStats, EquipmentSlot, Equipped, InBackpack, KnownSpell, KnownSpells, MagicStats, Name,
    Viewshed,
};
use spell_thief::gamelog::{two_wide_string, GameLog};
use spell_thief::geometry::Position;
use spell_thief::gui::{
    draw_bottom_border, draw_message_log, draw_player_stats, draw_right_border, draw_tooltips,
    draw_ui, drop_item_menu, equipment_of, game_over, inventory_of, menu_choice, menu_layout,
    menu_letter, ranged_target, remove_item_menu, show_inventory, targeting, Frame,
    GameOverResult, ItemMenuResult, MainMenuResult,
};
use spell_thief::input::{letter_to_option, Key};
use spell_thief::map::TileMap;
use spell_thief::run_state::MainMenuSelection;
use spell_thief::state::State;
use spell_thief::store::Entity;

fn game() -> (State, Entity) {
    let mut gs = State::new(TileMap::new_empty_map(3));
    let player = gs.ecs.create_entity();
    gs.ecs.player = player;
    gs.ecs.player_pos = Position { x: 10, y: 10 };
    gs.ecs.positions.insert(player, Position { x: 10, y: 10 });
    gs.ecs.kinds.names.insert(player, Name { name: "Player".to_string() });
    (gs, player)
}

fn carried(gs: &mut State, owner: Entity, name: &str) -> Entity {
    let e = gs.ecs.create_entity();
    gs.ecs.kinds.names.insert(e, Name { name: name.to_string() });
    gs.ecs.in_backpack.insert(e, InBackpack { owner });
    e
}

#[test]
fn letters_select_by_their_place_in_the_alphabet() {
    assert_eq!(letter_to_option(Key::Letter(0)), 0);
    assert_eq!(letter_to_option(Key::Letter(25)), 25);
    assert_eq!(letter_to_option(Key::Escape), -1);
    assert_eq!(letter_to_option(Key::Numpad1), -1);
    assert_eq!(letter_to_option(Key::Other), -1);
}

#[test]
fn a_menu_answers_escape_letters_and_silence() {
    let items = vec![Entity { id: 4 }, Entity { id: 9 }];
    assert_eq!(menu_choice(None, &items), (ItemMenuResult::NoResponse, None));
    assert_eq!(menu_choice(Some(Key::Escape), &items), (ItemMenuResult::Cancel, None));
    assert_eq!(
        menu_choice(Some(Key::Letter(0)), &items),
        (ItemMenuResult::Selected, Some(Entity { id: 4 }))
    );
    assert_eq!(
        menu_choice(Some(Key::Letter(1)), &items),
        (ItemMenuResult::Selected, Some(Entity { id: 9 }))
    );
    assert_eq!(menu_choice(Some(Key::Letter(2)), &items), (ItemMenuResult::NoResponse, None));
    assert_eq!(menu_choice(Some(Key::Space), &items), (ItemMenuResult::NoResponse, None));
    assert_eq!(menu_choice(Some(Key::Letter(0)), &Vec::new()), (ItemMenuResult::NoResponse, None));
}

#[test]
fn the_inventory_lists_what_the_player_carries() {
    let (mut gs, player) = game();
    let other = gs.ecs.create_entity();
    let potion = carried(&mut gs, player, "Health Potion");
    let _theirs = carried(&mut gs, other, "Gem");
    let scroll = carried(&mut gs, player, "Scroll");
    // An item without a name is not listed.
    let nameless = gs.ecs.create_entity();
    gs.ecs.in_backpack.insert(nameless, InBackpack { owner: player });
    let shield = gs.ecs.create_entity();
    gs.ecs.kinds.names.insert(shield, Name { name: "Shield".to_string() });
    gs.ecs.equipped.insert(shield, Equipped { owner: player, slot: EquipmentSlot::Shield });

    assert_eq!(inventory_of(&gs.ecs, player), vec![potion, scroll]);
    assert_eq!(equipment_of(&gs.ecs, player), vec![shield]);
    assert_eq!(
        show_inventory(&gs, Some(Key::Letter(1))),
        (ItemMenuResult::Selected, Some(scroll))
    );
    assert_eq!(
        drop_item_menu(&gs, Some(Key::Letter(0))),
        (ItemMenuResult::Selected, Some(potion))
    );
    assert_eq!(drop_item_menu(&gs, Some(Key::Letter(2))), (ItemMenuResult::NoResponse, None));
    assert_eq!(
        remove_item_menu(&gs, Some(Key::Letter(0))),
        (ItemMenuResult::Selected, Some(shield))
    );
    assert_eq!(remove_item_menu(&gs, Some(Key::Letter(1))), (ItemMenuResult::NoResponse, None));
    assert_eq!(remove_item_menu(&gs, Some(Key::Escape)), (ItemMenuResult::Cancel, None));
}

#[test]
fn a_menu_is_centred_on_row_twenty_five() {
    let empty = menu_layout(0);
    assert_eq!((empty.first_row, empty.box_y, empty.box_height, empty.hint_y), (25, 23, 3, 26));
    let four = menu_layout(4);
    assert_eq!((four.first_row, four.box_y, four.box_height, four.hint_y), (23, 21, 7, 28));
    assert_eq!((four.box_x, four.box_width, four.title_x, four.title_y), (15, 31, 18, 21));
    assert_eq!((four.bracket_x, four.letter_x, four.close_x, four.name_x), (17, 18, 19, 21));
    let five = menu_layout(5);
    assert_eq!(five.first_row, 23);
    assert_eq!(menu_letter(0), 97);
    assert_eq!(menu_letter(25), 122);
}

#[test]
fn game_over_leaves_on_any_key() {
    assert_eq!(game_over(None), GameOverResult::NoSelection);
    assert_eq!(game_over(Some(Key::Space)), GameOverResult::QuitToMenu);
    let idle = MainMenuResult::NoSelection { selected: MainMenuSelection::LoadGame };
    assert_ne!(idle, MainMenuResult::Selected { selected: MainMenuSelection::LoadGame });
}

#[test]
fn only_seen_tiles_in_range_can_be_aimed_at() {
    let (mut gs, player) = game();
    // Without a viewshed aiming is cancelled at once.
    assert_eq!(
        ranged_target(&gs, Position { x: 11, y: 10 }, false, 6, 0),
        (ItemMenuResult::Cancel, None)
    );
    let seen = vec![
        Position { x: 10, y: 10 },
        Position { x: 12, y: 10 },
        Position { x: 14, y: 13 },
        Position { x: 15, y: 13 },
        Position { x: 10, y: 17 },
    ];
    gs.ecs.viewsheds.insert(player, Viewshed { visible_tiles: seen, range: 8, dirty: false });

    let near = Position { x: 12, y: 10 };
    assert_eq!(ranged_target(&gs, near, false, 5, 1), (ItemMenuResult::NoResponse, None));
    assert_eq!(ranged_target(&gs, near, true, 5, 1), (ItemMenuResult::Selected, Some(near)));
    // Exactly at range 5: (4, 3) away.
    let edge = Position { x: 14, y: 13 };
    assert_eq!(ranged_target(&gs, edge, true, 5, 1), (ItemMenuResult::Selected, Some(edge)));
    // Seen but too far.
    let far = Position { x: 15, y: 13 };
    assert_eq!(ranged_target(&gs, far, true, 5, 1), (ItemMenuResult::Cancel, None));
    assert_eq!(ranged_target(&gs, far, false, 5, 1), (ItemMenuResult::NoResponse, None));
    // In range but not seen.
    let hidden = Position { x: 11, y: 11 };
    assert_eq!(ranged_target(&gs, hidden, true, 5, 1), (ItemMenuResult::Cancel, None));
    // A negative range reaches nothing.
    assert_eq!(
        ranged_target(&gs, Position { x: 10, y: 10 }, true, -1, 1),
        (ItemMenuResult::Cancel, None)
    );

    let overlay = targeting(&gs, near, 5, 1);
    assert_eq!(
        overlay.cells,
        vec![Position { x: 10, y: 10 }, Position { x: 12, y: 10 }, Position { x: 14, y: 13 }]
    );
    assert!(overlay.valid);
    assert_eq!(overlay.blast.len(), 5);
    assert!(overlay.blast.contains(&Position { x: 12, y: 11 }));
    let off = targeting(&gs, hidden, 5, 1);
    assert!(!off.valid);
    assert!(off.blast.is_empty());
    assert_eq!(off.cells.len(), 3);
}

#[test]
fn the_message_panel_shows_the_last_five() {
    let mut log = GameLog::new();
    assert!(draw_message_log(&log).is_empty());
    log.push_str("one");
    log.push("two".to_string());
    let lines = draw_message_log(&log);
    assert_eq!(lines.len(), 2);
    assert_eq!((lines[0].y, lines[0].text.as_str()), (44, "one"));
    assert_eq!((lines[1].y, lines[1].text.as_str()), (45, "two"));
    for text in ["three", "four", "five", "six", "seven"] {
        log.push_str(text);
    }
    let lines = draw_message_log(&log);
    assert_eq!(lines.len(), 5);
    assert_eq!((lines[0].y, lines[0].text.as_str()), (44, "three"));
    assert_eq!((lines[4].y, lines[4].text.as_str()), (48, "seven"));
    assert_eq!(log.entries.len(), 7);
}

#[test]
fn a_tooltip_names_what_stands_on_a_seen_tile() {
    let (mut gs, _player) = game();
    let orc = gs.ecs.create_entity();
    gs.ecs.positions.insert(orc, Position { x: 50, y: 20 });
    gs.ecs.kinds.names.insert(orc, Name { name: "Orc".to_string() });
    let potion = gs.ecs.create_entity();
    gs.ecs.positions.insert(potion, Position { x: 50, y: 20 });
    gs.ecs.kinds.names.insert(potion, Name { name: "Health Potion".to_string() });
    let at = Position { x: 50, y: 20 };

    // The tile is not seen: no tooltip.
    assert!(draw_tooltips(&gs.ecs, at).is_none());
    gs.ecs.map.visible_tiles[20 * 66 + 50] = true;
    gs.ecs.map.visible_tiles[20 * 66 + 51] = true;
    assert!(draw_tooltips(&gs.ecs, Position { x: 51, y: 20 }).is_none());
    assert!(draw_tooltips(&gs.ecs, Position { x: 70, y: 20 }).is_none());
    assert!(draw_tooltips(&gs.ecs, Position { x: -1, y: 20 }).is_none());

    let tip = draw_tooltips(&gs.ecs, at).unwrap();
    assert_eq!(tip.lines.len(), 2);
    assert_eq!(tip.width, 16);
    assert!(tip.on_left);
    assert_eq!((tip.arrow_x, tip.arrow_y), (48, 20));
    assert_eq!(tip.text_x, 34);
    assert_eq!(tip.padding_x, 48);
    assert_eq!((tip.lines[0].text.as_str(), tip.lines[0].y, tip.lines[0].padding), ("Orc", 20, 12));
    assert_eq!(
        (tip.lines[1].text.as_str(), tip.lines[1].y, tip.lines[1].padding),
        ("Health Potion", 21, 2)
    );

    // On the left half of the screen the tooltip stands to the right.
    gs.ecs.positions.insert(orc, Position { x: 40, y: 5 });
    gs.ecs.map.visible_tiles[5 * 66 + 40] = true;
    let tip = draw_tooltips(&gs.ecs, Position { x: 40, y: 5 }).unwrap();
    assert!(!tip.on_left);
    assert_eq!(tip.width, 6);
    assert_eq!((tip.arrow_x, tip.arrow_y, tip.text_x, tip.padding_x), (41, 5, 44, 42));
    assert_eq!(tip.lines[0].padding, 2);
}

#[test]
fn the_side_panel_sums_the_player_up() {
    let (mut gs, player) = game();
    assert!(draw_player_stats(&gs.ecs).is_none());
    gs.ecs.combat_stats.insert(player, CombatStats { max_hp: 30, hp: 7, defense: 2, attack: 5 });
    gs.ecs.magic_stats.insert(player, MagicStats { max_mana: 12, mana: 0 });
    let panel = draw_player_stats(&gs.ecs).unwrap();
    assert_eq!(panel.name, "Player");
    assert_eq!(panel.health, "hp:07/30");
    assert_eq!((panel.hp, panel.max_hp), (7, 30));
    assert_eq!(panel.mana_text, "mp:00/12");
    assert_eq!((panel.mana, panel.max_mana), (0, 12));
    assert_eq!(panel.depth, "depth:3");
    assert!(panel.spells.is_empty());

    let fireball = KnownSpell {
        name: "fireball".to_string(),
        mana_cost: 1,
        components: vec!["ranged".to_string(), "deals damage".to_string()],
    };
    let icicle = KnownSpell { name: "icicle".to_string(), mana_cost: 12, components: Vec::new() };
    gs.ecs.kinds.known_spells.insert(player, KnownSpells { spells: vec![fireball, icicle] });
    let panel = draw_player_stats(&gs.ecs).unwrap();
    assert_eq!(panel.spells.len(), 2);
    assert_eq!(panel.spells[0].slot, "^1");
    assert_eq!(panel.spells[0].title, "fireball (1):");
    assert_eq!(panel.spells[0].components, vec!["ranged", "deals damage"]);
    assert_eq!(panel.spells[1].slot, "^2");
    assert_eq!(panel.spells[1].title, "icicle (12):");
    assert!(panel.spells[1].components.is_empty());
}

#[test]
fn numbers_are_padded_to_two_places() {
    assert_eq!(two_wide_string(0), "00");
    assert_eq!(two_wide_string(9), "09");
    assert_eq!(two_wide_string(10), "10");
    assert_eq!(two_wide_string(123), "123");
    assert_eq!(two_wide_string(-5), "-5");
    assert_eq!(two_wide_string(i32::MIN), "-2147483648");
}

#[test]
fn the_panels_frame_the_level() {
    assert_eq!(draw_bottom_border(), Frame { x: 0, y: 43, width: 79, height: 6 });
    assert_eq!(draw_right_border(), Frame { x: 66, y: 0, width: 13, height: 42 });
    let (mut gs, player) = game();
    gs.ecs.log.push_str("hello");
    let ui = draw_ui(&gs.ecs, Position { x: 10, y: 10 });
    assert_eq!(ui.log.len(), 1);
    assert!(ui.stats.is_none());
    assert!(ui.tooltip.is_none());
    gs.ecs.combat_stats.insert(player, CombatStats { max_hp: 30, hp: 30, defense: 2, attack: 5 });
    gs.ecs.magic_stats.insert(player, MagicStats { max_mana: 5, mana: 5 });
    gs.ecs.map.visible_tiles[10 * 66 + 10] = true;
    let ui = draw_ui(&gs.ecs, Position { x: 10, y: 10 });
    assert_eq!(ui.stats.unwrap().health, "hp:30/30");
    assert_eq!(ui.tooltip.unwrap().lines[0].text, "Player");
}
