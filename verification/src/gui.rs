//! What the dialogs and panels show and how they answer input.  Nothing
//! here draws: each function hands back plain values for the console.

use crate::components::KnownSpell;
use crate::gamelog::{decimal, decimal_string, decimal_two_wide, two_wide_string, GameLog};
use crate::geometry::{disc, in_disc, points_in_circle, within_radius, Position};
use crate::input::{letter_option, letter_to_option, Key};
use crate::map::{on_map, tile_index};
use crate::run_state::MainMenuSelection;
use crate::state::State;
use crate::store::Entity;
use crate::world::World;
use vstd::prelude::*;
use vstd::string::*;

verus! {

/// How an item menu answered this tick's input.
#[derive(Clone, Copy, PartialEq, Eq, Structural, Debug)]
pub enum ItemMenuResult {
    Cancel,
    NoResponse,
    Selected,
}

/// How the game-over screen answered this tick's input.
#[derive(Clone, Copy, PartialEq, Eq, Structural, Debug)]
pub enum GameOverResult {
    NoSelection,
    QuitToMenu,
}

/// How the main menu answered this tick's input.
#[derive(Clone, Copy, PartialEq, Eq, Structural, Debug)]
pub enum MainMenuResult {
    NoSelection { selected: MainMenuSelection },
    Selected { selected: MainMenuSelection },
}

/// The answer of a menu that lists `items` to `key`: escape cancels, the
/// letter of a listed item selects it, anything else leaves the menu open.
pub open spec fn menu_answer(key: Option<Key>, items: Seq<Entity>) -> (ItemMenuResult, Option<
    Entity,
>) {
    match key {
        None => (ItemMenuResult::NoResponse, None),
        Some(Key::Escape) => (ItemMenuResult::Cancel, None),
        Some(k) => if 0 <= letter_option(k) < items.len() {
            (ItemMenuResult::Selected, Some(items[letter_option(k)]))
        } else {
            (ItemMenuResult::NoResponse, None)
        },
    }
}

/// Answers `key` for a menu that lists `items`.
pub fn menu_choice(key: Option<Key>, items: &Vec<Entity>) -> (answer: (
    ItemMenuResult,
    Option<Entity>,
))
    ensures
        answer == menu_answer(key, items@),
{
    match key {
        None => (ItemMenuResult::NoResponse, None),
        Some(key) => match key {
            Key::Escape => (ItemMenuResult::Cancel, None),
            _ => {
                let selection = letter_to_option(key);
                if selection > -1 && (selection as usize) < items.len() {
                    return (ItemMenuResult::Selected, Some(items[selection as usize]));
                }
                (ItemMenuResult::NoResponse, None)
            },
        },
    }
}

/// Answers `key` on the game-over screen: any key leaves it.
pub fn game_over(key: Option<Key>) -> (r: GameOverResult)
    ensures
        r == (if key is Some {
            GameOverResult::QuitToMenu
        } else {
            GameOverResult::NoSelection
        }),
{
    match key {
        None => GameOverResult::NoSelection,
        Some(_) => GameOverResult::QuitToMenu,
    }
}


/// `e` has a name and lies in the pack of `owner`.
pub open spec fn is_carried(world: &World, owner: Entity, e: Entity) -> bool {
    world.in_backpack@.dom().contains(e) && world.in_backpack@[e].owner == owner
        && world.kinds.names@.dom().contains(e)
}

/// `e` has a name and is worn by `owner`.
pub open spec fn is_worn(world: &World, owner: Entity, e: Entity) -> bool {
    world.equipped@.dom().contains(e) && world.equipped@[e].owner == owner
        && world.kinds.names@.dom().contains(e)
}

/// The named items among the first `n` entities that lie in the pack of
/// `owner`, in the order of their identifiers.
pub open spec fn carried(world: &World, owner: Entity, n: nat) -> Seq<Entity>
    decreases n,
{
    if n == 0 {
        Seq::empty()
    } else {
        let rest = carried(world, owner, (n - 1) as nat);
        let e = Entity { id: (n - 1) as usize };
        if is_carried(world, owner, e) {
            rest.push(e)
        } else {
            rest
        }
    }
}

/// The named items among the first `n` entities that `owner` wears, in
/// the order of their identifiers.
pub open spec fn worn(world: &World, owner: Entity, n: nat) -> Seq<Entity>
    decreases n,
{
    if n == 0 {
        Seq::empty()
    } else {
        let rest = worn(world, owner, (n - 1) as nat);
        let e = Entity { id: (n - 1) as usize };
        if is_worn(world, owner, e) {
            rest.push(e)
        } else {
            rest
        }
    }
}

/// Lists the named items in the pack of `owner`.
pub fn inventory_of(world: &World, owner: Entity) -> (items: Vec<Entity>)
    ensures
        items@ == carried(world, owner, world.entities.alive.len() as nat),
{
    let bound = world.entities.bound();
    let mut items: Vec<Entity> = Vec::new();
    let mut id: usize = 0;
    while id < bound
        invariant
            0 <= id <= bound,
            items@ == carried(world, owner, id as nat),
        decreases bound - id,
    {
        let e = Entity { id };
        let mine = match world.in_backpack.get(e) {
            Some(pack) => pack.owner == owner,
            None => false,
        };
        if mine && world.kinds.names.contains(e) {
            items.push(e);
        }
        id = id + 1;
    }
    items
}

/// Lists the named items that `owner` wears.
pub fn equipment_of(world: &World, owner: Entity) -> (items: Vec<Entity>)
    ensures
        items@ == worn(world, owner, world.entities.alive.len() as nat),
{
    let bound = world.entities.bound();
    let mut items: Vec<Entity> = Vec::new();
    let mut id: usize = 0;
    while id < bound
        invariant
            0 <= id <= bound,
            items@ == worn(world, owner, id as nat),
        decreases bound - id,
    {
        let e = Entity { id };
        let mine = match world.equipped.get(e) {
            Some(worn) => worn.owner == owner,
            None => false,
        };
        if mine && world.kinds.names.contains(e) {
            items.push(e);
        }
        id = id + 1;
    }
    items
}

/// Where the frame and the rows of an item menu go on the console.
#[derive(Clone, Copy, PartialEq, Eq, Structural, Debug)]
pub struct MenuLayout {
    /// Row of the first item; item `j` is on row `first_row + j`.
    pub first_row: i32,
    pub box_x: i32,
    pub box_y: i32,
    pub box_width: i32,
    pub box_height: i32,
    pub title_x: i32,
    pub title_y: i32,
    pub hint_x: i32,
    pub hint_y: i32,
    /// Columns of the opening bracket, the letter, the closing bracket
    /// and the name on each row.
    pub bracket_x: i32,
    pub letter_x: i32,
    pub close_x: i32,
    pub name_x: i32,
}

/// The layout of a menu of `count` items: centred on row 25, framed two
/// rows above the first item, with the hint below the last.
pub open spec fn menu_layout_for(count: int) -> MenuLayout {
    let y = 25 - count / 2;
    MenuLayout {
        first_row: y as i32,
        box_x: 15,
        box_y: (y - 2) as i32,
        box_width: 31,
        box_height: (count + 3) as i32,
        title_x: 18,
        title_y: (y - 2) as i32,
        hint_x: 18,
        hint_y: (y + count + 1) as i32,
        bracket_x: 17,
        letter_x: 18,
        close_x: 19,
        name_x: 21,
    }
}

/// Lays out a menu of `count` items.
pub fn menu_layout(count: usize) -> (layout: MenuLayout)
    requires
        count <= 51,
    ensures
        layout == menu_layout_for(count as int),
{
    let c = count as i32;
    let y: i32 = 25 - c / 2;
    MenuLayout {
        first_row: y,
        box_x: 15,
        box_y: y - 2,
        box_width: 31,
        box_height: c + 3,
        title_x: 18,
        title_y: y - 2,
        hint_x: 18,
        hint_y: y + c + 1,
        bracket_x: 17,
        letter_x: 18,
        close_x: 19,
        name_x: 21,
    }
}

/// The glyph of the letter that selects item `j` of a menu: `a` for the
/// first item.
pub fn menu_letter(j: u8) -> (glyph: u16)
    requires
        j < 26,
    ensures
        glyph == 97 + j,
{
    97 + j as u16
}

/// Answers `key` for the menu of what the player carries.
pub fn show_inventory(gs: &State, key: Option<Key>) -> (answer: (ItemMenuResult, Option<Entity>))
    ensures
        answer == menu_answer(
            key,
            carried(&gs.ecs, gs.ecs.player, gs.ecs.entities.alive.len() as nat),
        ),
{
    let items = inventory_of(&gs.ecs, gs.ecs.player);
    menu_choice(key, &items)
}

/// Answers `key` for the menu of what the player can drop.
pub fn drop_item_menu(gs: &State, key: Option<Key>) -> (answer: (ItemMenuResult, Option<Entity>))
    ensures
        answer == menu_answer(
            key,
            carried(&gs.ecs, gs.ecs.player, gs.ecs.entities.alive.len() as nat),
        ),
{
    let items = inventory_of(&gs.ecs, gs.ecs.player);
    menu_choice(key, &items)
}

/// Answers `key` for the menu of what the player can take off.
pub fn remove_item_menu(gs: &State, key: Option<Key>) -> (answer: (
    ItemMenuResult,
    Option<Entity>,
))
    ensures
        answer == menu_answer(
            key,
            worn(&gs.ecs, gs.ecs.player, gs.ecs.entities.alive.len() as nat),
        ),
{
    let items = equipment_of(&gs.ecs, gs.ecs.player);
    menu_choice(key, &items)
}

/// The player sees `tile`, and it lies within `range` of the player.
pub open spec fn can_target(world: &World, range: int, tile: Position) -> bool {
    world.viewsheds@.dom().contains(world.player)
        && world.viewsheds@[world.player].visible_tiles@.contains(tile) && in_disc(
        world.player_pos,
        range,
        tile,
    )
}

/// What the targeting overlay shows: the cells that can be aimed at, in
/// the order of the player's viewshed; whether the mouse is on one of
/// them; and, if it is, the tiles that a blast there would reach.
pub struct Targeting {
    pub cells: Vec<Position>,
    pub valid: bool,
    pub blast: Vec<Position>,
}

/// `t` is the overlay for aiming within `range` with the mouse at
/// `mouse_pos` and a blast of `radius`.
pub open spec fn is_targeting(
    world: &World,
    t: &Targeting,
    mouse_pos: Position,
    range: int,
    radius: int,
) -> bool {
    &&& world.viewsheds@.dom().contains(world.player) ==> t.cells@
        == world.viewsheds@[world.player].visible_tiles@.filter(
        |p: Position| in_disc(world.player_pos, range, p),
    )
    &&& !world.viewsheds@.dom().contains(world.player) ==> t.cells@ == Seq::<Position>::empty()
    &&& t.valid == can_target(world, range, mouse_pos)
    &&& t.blast@ == if t.valid {
        disc(mouse_pos, radius)
    } else {
        Seq::empty()
    }
}

/// Works out the targeting overlay.
pub fn targeting(gs: &State, mouse_pos: Position, range: i32, radius: i32) -> (t: Targeting)
    ensures
        is_targeting(&gs.ecs, &t, mouse_pos, range as int, radius as int),
{
    let mut cells: Vec<Position> = Vec::new();
    let mut valid = false;
    match gs.ecs.viewsheds.get(gs.ecs.player) {
        Some(visible) => {
            let tiles = &visible.visible_tiles;
            let ghost pred = |p: Position| in_disc(gs.ecs.player_pos, range as int, p);
            let mut i: usize = 0;
            assert(tiles@.take(0) =~= Seq::empty());
            while i < tiles.len()
                invariant
                    0 <= i <= tiles.len(),
                    pred == (|p: Position| in_disc(gs.ecs.player_pos, range as int, p)),
                    cells@ == tiles@.take(i as int).filter(pred),
                    valid == exists|k: int|
                        0 <= k < i && #[trigger] tiles[k] == mouse_pos && in_disc(
                            gs.ecs.player_pos,
                            range as int,
                            tiles[k],
                        ),
                decreases tiles.len() - i,
            {
                let tile = tiles[i];
                proof {
                    assert(tiles@.take(i as int + 1) =~= tiles@.take(i as int).push(tile));
                    assert(tiles@.take(i as int + 1).drop_last() =~= tiles@.take(i as int));
                    reveal_with_fuel(Seq::filter, 2);
                }
                if within_radius(gs.ecs.player_pos, range, tile) {
                    cells.push(tile);
                    if tile.x == mouse_pos.x && tile.y == mouse_pos.y {
                        valid = true;
                    }
                }
                i = i + 1;
            }
            assert(tiles@.take(tiles.len() as int) =~= tiles@);
            proof {
                if can_target(&gs.ecs, range as int, mouse_pos) {
                    let k = choose|k: int| 0 <= k < tiles@.len() && tiles@[k] == mouse_pos;
                    assert(tiles[k] == mouse_pos);
                }
            }
        },
        None => {},
    }
    let blast = if valid {
        points_in_circle(mouse_pos, radius)
    } else {
        Vec::new()
    };
    Targeting { cells, valid, blast }
}

/// The answer of the targeting overlay: a click on a cell that can be
/// aimed at selects it, a click elsewhere cancels, and a player without
/// a viewshed cannot aim at all.
pub open spec fn target_answer(world: &World, mouse_pos: Position, left_click: bool, range: int)
    -> (ItemMenuResult, Option<Position>) {
    if !world.viewsheds@.dom().contains(world.player) {
        (ItemMenuResult::Cancel, None)
    } else if can_target(world, range, mouse_pos) {
        if left_click {
            (ItemMenuResult::Selected, Some(mouse_pos))
        } else {
            (ItemMenuResult::NoResponse, None)
        }
    } else {
        if left_click {
            (ItemMenuResult::Cancel, None)
        } else {
            (ItemMenuResult::NoResponse, None)
        }
    }
}

/// Answers the mouse for the targeting overlay.
pub fn ranged_target(
    gs: &State,
    mouse_pos: Position,
    left_click: bool,
    range: i32,
    radius: i32,
) -> (answer: (ItemMenuResult, Option<Position>))
    ensures
        answer == target_answer(&gs.ecs, mouse_pos, left_click, range as int),
{
    if !gs.ecs.viewsheds.contains(gs.ecs.player) {
        return (ItemMenuResult::Cancel, None);
    }
    let overlay = targeting(gs, mouse_pos, range, radius);
    if overlay.valid {
        if left_click {
            return (ItemMenuResult::Selected, Some(mouse_pos));
        }
    } else {
        if left_click {
            return (ItemMenuResult::Cancel, None);
        }
    }
    (ItemMenuResult::NoResponse, None)
}


/// One line of the message panel.
pub struct LogLine {
    pub y: i32,
    pub text: String,
}

/// First row of the message panel.
pub const LOG_TOP: i32 = 44;

/// Number of messages that the message panel shows.
pub const LOG_LINES: usize = 5;

/// Lists what the message panel shows: the last five messages, oldest
/// first, from row 44 down.
pub fn draw_message_log(log: &GameLog) -> (lines: Vec<LogLine>)
    ensures
        lines.len() == if log@.len() < LOG_LINES {
            log@.len()
        } else {
            LOG_LINES as nat
        },
        forall|k: int|
            0 <= k < lines.len() ==> (#[trigger] lines[k]).y == LOG_TOP + k && lines[k].text@
                == log@[log@.len() - lines.len() + k],
{
    let n = log.entries.len();
    let first = if n > LOG_LINES {
        n - LOG_LINES
    } else {
        0
    };
    let mut lines: Vec<LogLine> = Vec::new();
    let mut i = first;
    while i < n
        invariant
            first <= i <= n == log.entries.len(),
            n - first <= LOG_LINES,
            lines.len() == i - first,
            forall|k: int|
                0 <= k < lines.len() ==> (#[trigger] lines[k]).y == LOG_TOP + k && lines[k].text@
                    == log@[first + k],
        decreases n - i,
    {
        lines.push(LogLine { y: LOG_TOP + (i - first) as i32, text: log.entries[i].clone() });
        i = i + 1;
    }
    lines
}

/// `e` has a name and stands on the tile `at`.
pub open spec fn is_named_at(world: &World, at: Position, e: Entity) -> bool {
    world.kinds.names@.dom().contains(e) && world.positions@.dom().contains(e)
        && world.positions@[e] == at
}

/// The names of the named entities among the first `n` that stand on the
/// tile `at`, in the order of their identifiers.
pub open spec fn names_at(world: &World, at: Position, n: nat) -> Seq<Seq<char>>
    decreases n,
{
    if n == 0 {
        Seq::empty()
    } else {
        let rest = names_at(world, at, (n - 1) as nat);
        let e = Entity { id: (n - 1) as usize };
        if is_named_at(world, at, e) {
            rest.push(world.kinds.names@[e].name@)
        } else {
            rest
        }
    }
}

/// What the tooltip at `mouse_pos` lists: the names of what stands on a
/// tile that the player sees, and nothing for any other tile.
pub open spec fn tooltip_names(world: &World, mouse_pos: Position) -> Seq<Seq<char>> {
    if on_map(mouse_pos.x as int, mouse_pos.y as int) && world.map.visible_tiles[tile_index(
        mouse_pos.x as int,
        mouse_pos.y as int,
    )] {
        names_at(world, mouse_pos, world.entities.alive.len() as nat)
    } else {
        Seq::empty()
    }
}

/// The length of the longest of `lines`.
pub open spec fn widest(lines: Seq<Seq<char>>) -> nat
    decreases lines.len(),
{
    if lines.len() == 0 {
        0
    } else {
        let rest = widest(lines.drop_last());
        if lines.last().len() > rest {
            lines.last().len()
        } else {
            rest
        }
    }
}

/// One line of a tooltip: its text, its row, and the number of blanks
/// that fill the gap between the text and the arrow.
pub struct TooltipLine {
    pub text: String,
    pub y: i128,
    pub padding: i128,
}

/// A tooltip beside the mouse.  It stands to the left of the mouse when
/// the mouse is right of column 40, and to the right otherwise.
pub struct Tooltip {
    pub lines: Vec<TooltipLine>,
    /// Length of the longest line and three more.
    pub width: i128,
    pub on_left: bool,
    /// Column where each line of text starts.
    pub text_x: i128,
    /// Place of the two-character arrow that points at the mouse.
    pub arrow_x: i128,
    pub arrow_y: i128,
    /// Column of the first blank of a line.  Further blanks follow to the
    /// left when the tooltip is on the left, and to the right otherwise.
    pub padding_x: i128,
}

/// `tip` is the tooltip for the lines `names` at `mouse_pos`.
pub open spec fn is_tooltip(tip: &Tooltip, names: Seq<Seq<char>>, mouse_pos: Position) -> bool {
    &&& tip.lines.len() == names.len()
    &&& tip.width == widest(names) + 3
    &&& tip.on_left == (mouse_pos.x > 40)
    &&& tip.arrow_y == mouse_pos.y
    &&& tip.arrow_x == if tip.on_left {
        mouse_pos.x - 2
    } else {
        mouse_pos.x + 1
    }
    &&& tip.text_x == if tip.on_left {
        mouse_pos.x - tip.width
    } else {
        mouse_pos.x + 4
    }
    &&& tip.padding_x == if tip.on_left {
        mouse_pos.x - 2
    } else {
        mouse_pos.x + 2
    }
    &&& forall|k: int|
        0 <= k < names.len() ==> {
            &&& (#[trigger] tip.lines[k]).text@ == names[k]
            &&& tip.lines[k].y == mouse_pos.y + k
            &&& tip.lines[k].padding == tip.width - names[k].len() - 1
        }
}

proof fn lemma_widest_bounds(lines: Seq<Seq<char>>, k: int)
    requires
        0 <= k < lines.len(),
    ensures
        lines[k].len() <= widest(lines),
    decreases lines.len(),
{
    if k < lines.len() - 1 {
        lemma_widest_bounds(lines.drop_last(), k);
    }
}

/// Works out the tooltip for the tile under the mouse.  There is none
/// when nothing with a name stands there or the player does not see the
/// tile.
pub fn draw_tooltips(ecs: &World, mouse_pos: Position) -> (tip: Option<Tooltip>)
    requires
        ecs.map.wf(),
    ensures
        tip is None <==> tooltip_names(ecs, mouse_pos).len() == 0,
        tip is Some ==> is_tooltip(&tip->0, tooltip_names(ecs, mouse_pos), mouse_pos),
{
    if !ecs.map.in_bounds(mouse_pos.x, mouse_pos.y) {
        return None;
    }
    let idx = ecs.map.xy_idxi32(mouse_pos.x, mouse_pos.y);
    if !ecs.map.visible_tiles[idx] {
        return None;
    }
    let bound = ecs.entities.bound();
    let mut tooltip: Vec<String> = Vec::new();
    let mut width: usize = 0;
    let mut id: usize = 0;
    while id < bound
        invariant
            0 <= id <= bound,
            tooltip.len() == names_at(ecs, mouse_pos, id as nat).len(),
            forall|k: int|
                0 <= k < tooltip.len() ==> (#[trigger] tooltip[k])@ == names_at(
                    ecs,
                    mouse_pos,
                    id as nat,
                )[k],
            width == widest(names_at(ecs, mouse_pos, id as nat)),
        decreases bound - id,
    {
        let e = Entity { id };
        let here = match ecs.positions.get(e) {
            Some(p) => p.x == mouse_pos.x && p.y == mouse_pos.y,
            None => false,
        };
        if here {
            match ecs.kinds.names.get(e) {
                Some(name) => {
                    let text = name.name.clone();
                    let len = text.as_str().unicode_len();
                    proof {
                        let before = names_at(ecs, mouse_pos, id as nat);
                        assert(before.push(text@).drop_last() =~= before);
                    }
                    if width < len {
                        width = len;
                    }
                    tooltip.push(text);
                },
                None => {},
            }
        }
        id = id + 1;
    }
    if tooltip.len() == 0 {
        return None;
    }
    let ghost listed = names_at(ecs, mouse_pos, bound as nat);
    let total: i128 = width as i128 + 3;
    let on_left = mouse_pos.x > 40;
    let mut lines: Vec<TooltipLine> = Vec::new();
    let mut k: usize = 0;
    while k < tooltip.len()
        invariant
            0 <= k <= tooltip.len(),
            tooltip.len() == listed.len(),
            total == width + 3,
            width == widest(listed),
            forall|j: int| 0 <= j < tooltip.len() ==> (#[trigger] tooltip[j])@ == listed[j],
            lines.len() == k,
            forall|j: int|
                0 <= j < k ==> {
                    &&& (#[trigger] lines[j]).text@ == listed[j]
                    &&& lines[j].y == mouse_pos.y + j
                    &&& lines[j].padding == total - listed[j].len() - 1
                },
        decreases tooltip.len() - k,
    {
        let text = tooltip[k].clone();
        let len = text.as_str().unicode_len();
        proof {
            lemma_widest_bounds(listed, k as int);
        }
        lines.push(
            TooltipLine {
                text,
                y: mouse_pos.y as i128 + k as i128,
                padding: total - len as i128 - 1,
            },
        );
        k = k + 1;
    }
    let mx = mouse_pos.x as i128;
    Some(
        Tooltip {
            lines,
            width: total,
            on_left,
            text_x: if on_left {
                mx - total
            } else {
                mx + 4
            },
            arrow_x: if on_left {
                mx - 2
            } else {
                mx + 1
            },
            arrow_y: mouse_pos.y as i128,
            padding_x: if on_left {
                mx - 2
            } else {
                mx + 2
            },
        },
    )
}


/// Width of the console window, in characters.
pub const WINDOW_WIDTH: i32 = 80;

/// Height of the console window, in characters.
pub const WINDOW_HEIGHT: i32 = 50;

/// Width of the panel to the right of the level.
pub const R_GUI_SIZE: i32 = 14;

/// Height of the panel below the level.
pub const B_GUI_SIZE: i32 = 7;

/// A box on the console: its upper left corner, and how far it reaches
/// to the right and down.
#[derive(Clone, Copy, PartialEq, Eq, Structural, Debug)]
pub struct Frame {
    pub x: i32,
    pub y: i32,
    pub width: i32,
    pub height: i32,
}

/// The frame of the panel below the level: as wide as the window, from
/// the first row under the level to the bottom.
pub fn draw_bottom_border() -> (frame: Frame)
    ensures
        frame == (Frame {
            x: 0,
            y: (WINDOW_HEIGHT - B_GUI_SIZE) as i32,
            width: (WINDOW_WIDTH - 1) as i32,
            height: (B_GUI_SIZE - 1) as i32,
        }),
        frame.y == crate::map::HEIGHT,
{
    Frame { x: 0, y: WINDOW_HEIGHT - B_GUI_SIZE, width: WINDOW_WIDTH - 1, height: B_GUI_SIZE - 1 }
}

/// The frame of the panel to the right of the level: from the first
/// column beside the level to the edge of the window, as high as the level.
pub fn draw_right_border() -> (frame: Frame)
    ensures
        frame == (Frame {
            x: (WINDOW_WIDTH - R_GUI_SIZE) as i32,
            y: 0,
            width: (R_GUI_SIZE - 1) as i32,
            height: (WINDOW_HEIGHT - B_GUI_SIZE - 1) as i32,
        }),
        frame.x == crate::map::WIDTH,
{
    Frame {
        x: WINDOW_WIDTH - R_GUI_SIZE,
        y: 0,
        width: R_GUI_SIZE - 1,
        height: WINDOW_HEIGHT - B_GUI_SIZE - 1,
    }
}

/// Column where the text of the side panel starts.
pub const PANEL_X: i32 = 67;

/// Width of the bars of the side panel.
pub const BAR_WIDTH: i32 = 12;

/// Row of the player's name on the side panel.
pub const NAME_ROW: i32 = 1;

/// Row of the health line.
pub const HEALTH_ROW: i32 = 3;

/// Row of the health bar.
pub const HEALTH_BAR_ROW: i32 = 4;

/// Row of the mana line.
pub const MANA_ROW: i32 = 6;

/// Row of the mana bar.
pub const MANA_BAR_ROW: i32 = 7;

/// Row of the depth line.
pub const DEPTH_ROW: i32 = 9;

/// Row of the heading of the spell list.
pub const SPELLS_ROW: i32 = 11;

/// Row of the first known spell.
pub const FIRST_SPELL_ROW: i32 = 13;

/// A known spell as the side panel lists it: the slot and the title on
/// one row, one component on each row below, then a blank row.
pub struct SpellLines {
    pub slot: String,
    pub title: String,
    pub components: Vec<String>,
}

/// What the side panel says of the player.
pub struct StatsPanel {
    pub name: String,
    pub health: String,
    pub hp: i32,
    pub max_hp: i32,
    pub mana_text: String,
    pub mana: i32,
    pub max_mana: i32,
    pub depth: String,
    pub spells: Vec<SpellLines>,
}

/// The text of the health line.
pub open spec fn health_text(hp: int, max_hp: int) -> Seq<char> {
    "hp:"@ + decimal_two_wide(hp) + "/"@ + decimal_two_wide(max_hp)
}

/// The text of the mana line.
pub open spec fn mana_line(mana: int, max_mana: int) -> Seq<char> {
    "mp:"@ + decimal_two_wide(mana) + "/"@ + decimal_two_wide(max_mana)
}

/// The text of the depth line.
pub open spec fn depth_text(depth: int) -> Seq<char> {
    "depth:"@ + decimal(depth)
}

/// The text that names slot `slot`.
pub open spec fn slot_text(slot: int) -> Seq<char> {
    "^"@ + decimal(slot)
}

/// The title of a known spell.
pub open spec fn spell_title(name: Seq<char>, cost: int) -> Seq<char> {
    name + " ("@ + decimal(cost) + "):"@
}

/// The spells that the player knows; none if it has no list of them.
pub open spec fn known_by_player(world: &World) -> Seq<KnownSpell> {
    if world.kinds.known_spells@.dom().contains(world.player) {
        world.kinds.known_spells@[world.player].spells@
    } else {
        Seq::empty()
    }
}

/// `lines` lists the known spell `spell`, which stands in slot `slot`.
pub open spec fn lists_spell(lines: &SpellLines, spell: &KnownSpell, slot: int) -> bool {
    &&& lines.slot@ == slot_text(slot)
    &&& lines.title@ == spell_title(spell.name@, spell.mana_cost as int)
    &&& lines.components.len() == spell.components.len()
    &&& forall|c: int|
        0 <= c < lines.components.len() ==> (#[trigger] lines.components[c])@
            == spell.components[c]@
}

/// `panel` says of the player what `world` holds.
pub open spec fn is_stats_panel(panel: &StatsPanel, world: &World) -> bool {
    let p = world.player;
    let stats = world.combat_stats@[p];
    let magic = world.magic_stats@[p];
    let known = known_by_player(world);
    &&& panel.name@ == world.kinds.names@[p].name@
    &&& panel.hp == stats.hp
    &&& panel.max_hp == stats.max_hp
    &&& panel.health@ == health_text(stats.hp as int, stats.max_hp as int)
    &&& panel.mana == magic.mana
    &&& panel.max_mana == magic.max_mana
    &&& panel.mana_text@ == mana_line(magic.mana as int, magic.max_mana as int)
    &&& panel.depth@ == depth_text(world.map.depth as int)
    &&& panel.spells.len() == known.len()
    &&& forall|k: int|
        0 <= k < known.len() ==> lists_spell(
            #[trigger] &panel.spells[k],
            &known[k],
            k + 1,
        )
}

/// The player has what the side panel shows: hit points, mana and a name.
pub open spec fn has_stats(world: &World) -> bool {
    world.combat_stats@.dom().contains(world.player) && world.magic_stats@.dom().contains(
        world.player,
    ) && world.kinds.names@.dom().contains(world.player)
}

fn copy_lines(texts: &Vec<String>) -> (copy: Vec<String>)
    ensures
        copy.len() == texts.len(),
        forall|c: int| 0 <= c < copy.len() ==> (#[trigger] copy[c])@ == texts[c]@,
{
    let mut copy: Vec<String> = Vec::new();
    let mut i: usize = 0;
    while i < texts.len()
        invariant
            0 <= i <= texts.len(),
            copy.len() == i,
            forall|c: int| 0 <= c < i ==> (#[trigger] copy[c])@ == texts[c]@,
        decreases texts.len() - i,
    {
        copy.push(texts[i].clone());
        i = i + 1;
    }
    copy
}

fn list_spells(known: &Vec<KnownSpell>) -> (spells: Vec<SpellLines>)
    ensures
        spells.len() == known.len(),
        forall|k: int|
            0 <= k < known.len() ==> lists_spell(
                #[trigger] &spells[k],
                &known[k],
                k + 1,
            ),
{
    let mut spells: Vec<SpellLines> = Vec::new();
    let mut k: usize = 0;
    while k < known.len()
        invariant
            0 <= k <= known.len(),
            spells.len() == k,
            forall|j: int|
                0 <= j < k ==> lists_spell(
                    #[trigger] &spells[j],
                    &known[j],
                    j + 1,
                ),
        decreases known.len() - k,
    {
        let spell = &known[k];
        let mut slot = String::from_str("^");
        slot.append(decimal_string(k as i128 + 1).as_str());
        let mut title = spell.name.clone();
        title.append(" (");
        title.append(decimal_string(spell.mana_cost as i128).as_str());
        title.append("):");
        let components = copy_lines(&spell.components);
        spells.push(SpellLines { slot, title, components });
        k = k + 1;
    }
    spells
}

/// Works out what the side panel says of the player.  A player without
/// hit points, mana or a name has no panel.
pub fn draw_player_stats(ecs: &World) -> (panel: Option<StatsPanel>)
    ensures
        panel is Some <==> has_stats(ecs),
        panel is Some ==> is_stats_panel(&panel->0, ecs),
{
    let player = ecs.player;
    match (ecs.combat_stats.get(player), ecs.magic_stats.get(player), ecs.kinds.names.get(player)) {
        (Some(stats), Some(mstats), Some(name)) => {
            let mut health = String::from_str("hp:");
            health.append(two_wide_string(stats.hp).as_str());
            health.append("/");
            health.append(two_wide_string(stats.max_hp).as_str());
            let mut mana_text = String::from_str("mp:");
            mana_text.append(two_wide_string(mstats.mana).as_str());
            mana_text.append("/");
            mana_text.append(two_wide_string(mstats.max_mana).as_str());
            let mut depth = String::from_str("depth:");
            depth.append(decimal_string(ecs.map.depth as i128).as_str());
            let spells = match ecs.kinds.known_spells.get(player) {
                Some(known_spells) => list_spells(&known_spells.spells),
                None => Vec::new(),
            };
            Some(
                StatsPanel {
                    name: name.name.clone(),
                    health,
                    hp: stats.hp,
                    max_hp: stats.max_hp,
                    mana_text,
                    mana: mstats.mana,
                    max_mana: mstats.max_mana,
                    depth,
                    spells,
                },
            )
        },
        _ => None,
    }
}


/// What the panels around the level show.
pub struct Ui {
    pub log: Vec<LogLine>,
    pub stats: Option<StatsPanel>,
    pub tooltip: Option<Tooltip>,
}

/// Works out what the panels show: the last messages, the player's
/// summary, and the tooltip for the tile under the mouse.
pub fn draw_ui(ecs: &World, mouse_pos: Position) -> (ui: Ui)
    requires
        ecs.map.wf(),
    ensures
        ui.log.len() == if ecs.log@.len() < LOG_LINES {
            ecs.log@.len()
        } else {
            LOG_LINES as nat
        },
        forall|k: int|
            0 <= k < ui.log.len() ==> (#[trigger] ui.log[k]).y == LOG_TOP + k && ui.log[k].text@
                == ecs.log@[ecs.log@.len() - ui.log.len() + k],
        ui.stats is Some <==> has_stats(ecs),
        ui.stats is Some ==> is_stats_panel(&ui.stats->0, ecs),
        ui.tooltip is None <==> tooltip_names(ecs, mouse_pos).len() == 0,
        ui.tooltip is Some ==> is_tooltip(
            &ui.tooltip->0,
            tooltip_names(ecs, mouse_pos),
            mouse_pos,
        ),
{
    Ui {
        log: draw_message_log(&ecs.log),
        stats: draw_player_stats(ecs),
        tooltip: draw_tooltips(ecs, mouse_pos),
    }
}

} // verus!
