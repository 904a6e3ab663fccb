//! What the keys do while the game waits for the player.

use crate::components::{
    clamp, KnownSpell, Spell, Viewshed, WantsToMelee, WantsToPickupItem,
};
use crate::geometry::Position;
use crate::input::{
    Key, LETTER_B, LETTER_D, LETTER_G, LETTER_H, LETTER_I, LETTER_J, LETTER_K, LETTER_L, LETTER_N,
    LETTER_R, LETTER_U, LETTER_Y,
};
use crate::map::{on_map, tile_index, TileType};
use crate::run_state::RunState;
use crate::state::State;
use crate::store::Entity;
use crate::world::World;
use vstd::prelude::*;

verus! {

/// The first of `content` that has combat stats.
pub open spec fn first_fighter(content: Seq<Entity>, fighters: Set<Entity>) -> Option<Entity>
    decreases content.len(),
{
    if content.len() == 0 {
        None
    } else if fighters.contains(content[0]) {
        Some(content[0])
    } else {
        first_fighter(content.drop_first(), fighters)
    }
}

/// What a step of the player by `(dx, dy)` comes to.
pub enum StepOutcome {
    /// The player stays: it has no place or viewshed, the tile is off the
    /// map, or the tile is blocked.
    Stay,
    /// The player hits whoever stands on the tile.
    Hit(Entity),
    /// The player walks to the tile.
    Walk(Position),
}

/// What a step of the player by `(dx, dy)` comes to in `world`, where the
/// level is `world_size` wide and high.
pub open spec fn step_outcome(world: &World, dx: int, dy: int, world_size: Position)
    -> StepOutcome {
    let p = world.player;
    if world.kinds.players@.dom().contains(p) && world.positions@.dom().contains(p)
        && world.viewsheds@.dom().contains(p) {
        let x = world.positions@[p].x + dx;
        let y = world.positions@[p].y + dy;
        if on_map(x, y) {
            let idx = tile_index(x, y);
            match first_fighter(world.map.tile_content[idx]@, world.combat_stats@.dom()) {
                Some(target) => StepOutcome::Hit(target),
                None => if !world.map.blocked[idx] {
                    StepOutcome::Walk(
                        Position {
                            x: clamp(x, 0, world_size.x - 1) as i32,
                            y: clamp(y, 0, world_size.y - 1) as i32,
                        },
                    )
                } else {
                    StepOutcome::Stay
                },
            }
        } else {
            StepOutcome::Stay
        }
    } else {
        StepOutcome::Stay
    }
}

/// `after` is `before` with the player's step carried out.
pub open spec fn came_to(before: &World, after: &World, outcome: StepOutcome) -> bool {
    match outcome {
        StepOutcome::Stay => *after == *before,
        StepOutcome::Hit(target) => {
            &&& *after == (World {
                intents: crate::world::Intents {
                    melee: after.intents.melee,
                    ..before.intents
                },
                ..*before
            })
            &&& after.intents.melee@ == before.intents.melee@.insert(
                before.player,
                WantsToMelee { target },
            )
        },
        StepOutcome::Walk(to) => {
            &&& *after == (World {
                positions: after.positions,
                viewsheds: after.viewsheds,
                player_pos: to,
                ..*before
            })
            &&& after.positions@ == before.positions@.insert(before.player, to)
            &&& after.viewsheds@.dom() == before.viewsheds@.dom()
            &&& forall|e: Entity|
                e != before.player && before.viewsheds@.dom().contains(e)
                    ==> #[trigger] after.viewsheds@[e] == before.viewsheds@[e]
            &&& after.viewsheds@[before.player] == (Viewshed {
                dirty: true,
                ..before.viewsheds@[before.player]
            })
        },
    }
}

/// Finds the first of `content` that has combat stats.
fn find_fighter(world: &World, idx: usize) -> (found: Option<Entity>)
    requires
        idx < world.map.tile_content.len(),
    ensures
        found == first_fighter(world.map.tile_content[idx as int]@, world.combat_stats@.dom()),
{
    let content = &world.map.tile_content[idx];
    let mut i: usize = 0;
    assert(content@.skip(0) =~= content@);
    while i < content.len()
        invariant
            0 <= i <= content.len(),
            content@ == world.map.tile_content[idx as int]@,
            first_fighter(content@, world.combat_stats@.dom()) == first_fighter(
                content@.skip(i as int),
                world.combat_stats@.dom(),
            ),
        decreases content.len() - i,
    {
        assert(content@.skip(i as int).drop_first() =~= content@.skip(i as int + 1));
        assert(content@.skip(i as int)[0] == content[i as int]);
        if world.combat_stats.contains(content[i]) {
            return Some(content[i]);
        }
        i = i + 1;
    }
    None
}

/// Moves the player by `(delta_x, delta_y)`, or has it hit what stands in
/// the way.
pub fn try_move_player(delta_x: i32, delta_y: i32, ecs: &mut World, world_size: Position)
    requires
        old(ecs).map.wf(),
        -1 <= delta_x <= 1,
        -1 <= delta_y <= 1,
        world_size.x >= 1,
        world_size.y >= 1,
    ensures
        came_to(
            old(ecs),
            final(ecs),
            step_outcome(old(ecs), delta_x as int, delta_y as int, world_size),
        ),
{
    let player = ecs.player;
    if !ecs.kinds.players.contains(player) || !ecs.viewsheds.contains(player) {
        return ;
    }
    let place = match ecs.positions.get(player) {
        Some(p) => Some(*p),
        None => None,
    };
    match place {
        Some(pos) => {
            let x: i64 = pos.x as i64 + delta_x as i64;
            let y: i64 = pos.y as i64 + delta_y as i64;
            if 0 <= x && x < 66 && 0 <= y && y < 43 {
                let destination_idx = ecs.map.xy_idx(x as usize, y as usize);
                match find_fighter(ecs, destination_idx) {
                    Some(target) => {
                        ecs.intents.melee.insert(player, WantsToMelee { target });
                    },
                    None => {
                        if !ecs.map.blocked[destination_idx] {
                            let nx: i64 = if x > world_size.x as i64 - 1 {
                                world_size.x as i64 - 1
                            } else {
                                x
                            };
                            let ny: i64 = if y > world_size.y as i64 - 1 {
                                world_size.y as i64 - 1
                            } else {
                                y
                            };
                            let to = Position { x: nx as i32, y: ny as i32 };
                            ecs.positions.insert(player, to);
                            let taken = ecs.viewsheds.remove(player);
                            let mut viewshed = taken.unwrap();
                            viewshed.dirty = true;
                            ecs.viewsheds.insert(player, viewshed);
                            ecs.player_pos = to;
                            assert(ecs.viewsheds@.dom() =~= old(ecs).viewsheds@.dom());
                        }
                    },
                }
            }
        },
        None => {},
    }
}

/// The item with the largest identifier below `n` that lies on the
/// player's tile.
pub open spec fn item_here(world: &World, n: nat) -> Option<Entity>
    decreases n,
{
    if n == 0 {
        None
    } else {
        let e = Entity { id: (n - 1) as usize };
        if world.kinds.items@.dom().contains(e) && world.positions@.dom().contains(e)
            && world.positions@[e] == world.player_pos {
            Some(e)
        } else {
            item_here(world, (n - 1) as nat)
        }
    }
}

/// `after` is `before` with the player having reached for what lies on
/// its tile: an item there is asked for, and an empty tile is remarked on.
pub open spec fn reached_down(before: &World, after: &World) -> bool {
    match item_here(before, before.entities.alive.len() as nat) {
        Some(item) => {
            &&& after.intents.pickup@ == before.intents.pickup@.insert(
                before.player,
                WantsToPickupItem { collected_by: before.player, item },
            )
            &&& *after == (World {
                intents: crate::world::Intents {
                    pickup: after.intents.pickup,
                    ..before.intents
                },
                ..*before
            })
        },
        None => {
            &&& after.log@ == before.log@.push("There is nothing here to pick up."@)
            &&& *after == (World { log: after.log, ..*before })
        },
    }
}

/// The player reaches for what lies on its tile.
pub fn get_item(ecs: &mut World)
    ensures
        reached_down(old(ecs), final(ecs)),
{
    let bound = ecs.entities.bound();
    let mut target_item: Option<Entity> = None;
    let mut id: usize = 0;
    while id < bound
        invariant
            0 <= id <= bound,
            *ecs == *old(ecs),
            target_item == item_here(ecs, id as nat),
        decreases bound - id,
    {
        let e = Entity { id };
        if ecs.kinds.items.contains(e) {
            match ecs.positions.get(e) {
                Some(position) => {
                    if position.x == ecs.player_pos.x && position.y == ecs.player_pos.y {
                        target_item = Some(e);
                    }
                },
                None => {},
            }
        }
        id = id + 1;
    }
    match target_item {
        None => {
            ecs.log.push_str("There is nothing here to pick up.");
        },
        Some(item) => {
            let player = ecs.player;
            ecs.intents.pickup.insert(player, WantsToPickupItem { collected_by: player, item });
        },
    }
}

/// The player stands on a stairway down.
pub open spec fn on_stairs(world: &World) -> bool {
    world.map.tiles[tile_index(world.player_pos.x as int, world.player_pos.y as int)]
        == TileType::DownStairs
}

/// `after` is `before` with the player having looked for a way down: on
/// a stairway nothing changes, elsewhere the log says that there is none.
pub open spec fn looked_down(before: &World, after: &World) -> bool {
    if on_stairs(before) {
        *after == *before
    } else {
        &&& after.log@ == before.log@.push("There is no way down from here."@)
        &&& *after == (World { log: after.log, ..*before })
    }
}

/// Whether the player can go down from where it stands.  If it cannot,
/// the log says so.
pub fn try_next_level(ecs: &mut World) -> (down: bool)
    requires
        old(ecs).map.wf(),
        on_map(old(ecs).player_pos.x as int, old(ecs).player_pos.y as int),
    ensures
        down == on_stairs(old(ecs)),
        looked_down(old(ecs), final(ecs)),
{
    let player_idx = ecs.map.xy_idxi32(ecs.player_pos.x, ecs.player_pos.y);
    if ecs.map.tiles[player_idx] == TileType::DownStairs {
        true
    } else {
        ecs.log.push_str("There is no way down from here.");
        false
    }
}

/// The player knows at least `slot` spells.
pub open spec fn knows_slot(world: &World, slot: int) -> bool {
    world.kinds.known_spells@.dom().contains(world.player) && 0 <= slot
        <= world.kinds.known_spells@[world.player].spells.len()
}

/// Whether the player knows a spell in slot `slot`, counted from one.
pub fn has_spell_in_slot(ecs: &World, slot: i32) -> (r: bool)
    ensures
        r == knows_slot(ecs, slot as int),
{
    match ecs.kinds.known_spells.get(ecs.player) {
        Some(known_spells) => slot >= 0 && known_spells.spells.len() >= slot as usize,
        None => false,
    }
}

/// The spell entity with the smallest identifier below `bound` that is
/// called `name`.
pub open spec fn spell_named(spells: Map<Entity, Spell>, name: Seq<char>, bound: nat, from: nat)
    -> Option<Entity>
    decreases bound - from,
{
    if from >= bound {
        None
    } else {
        let e = Entity { id: from as usize };
        if spells.dom().contains(e) && spells[e].name@ == name {
            Some(e)
        } else {
            spell_named(spells, name, bound, from + 1)
        }
    }
}

/// The first of the known spells `known`, from index `from` on, for which
/// a spell entity exists, with that entity.
pub open spec fn first_castable(
    spells: Map<Entity, Spell>,
    known: Seq<KnownSpell>,
    bound: nat,
    from: nat,
) -> Option<Entity>
    decreases known.len() - from,
{
    if from >= known.len() {
        None
    } else {
        match spell_named(spells, known[from as int].name@, bound, 0) {
            Some(e) => Some(e),
            None => first_castable(spells, known, bound, from + 1),
        }
    }
}

/// The spell that the cast key aims: the first known spell of the player
/// that exists as an entity.
pub open spec fn castable(world: &World) -> Option<Entity> {
    if knows_slot(world, 1) {
        first_castable(
            world.kinds.spells@,
            world.kinds.known_spells@[world.player].spells@,
            world.entities.alive.len() as nat,
            0,
        )
    } else {
        None
    }
}

/// Finds the spell that the cast key aims.
pub fn find_castable(ecs: &World) -> (found: Option<Entity>)
    ensures
        found == castable(ecs),
        found is Some ==> ecs.kinds.spells@.dom().contains(found->0),
{
    if !has_spell_in_slot(ecs, 1) {
        return None;
    }
    let bound = ecs.entities.bound();
    match ecs.kinds.known_spells.get(ecs.player) {
        Some(known_spells) => {
            let known = &known_spells.spells;
            let mut k: usize = 0;
            while k < known.len()
                invariant
                    0 <= k <= known.len(),
                    bound == ecs.entities.alive.len(),
                    castable(ecs) == first_castable(
                        ecs.kinds.spells@,
                        known@,
                        bound as nat,
                        k as nat,
                    ),
                decreases known.len() - k,
            {
                let mut id: usize = 0;
                while id < bound
                    invariant
                        0 <= id <= bound,
                        0 <= k < known.len(),
                        bound == ecs.entities.alive.len(),
                        castable(ecs) == first_castable(
                            ecs.kinds.spells@,
                            known@,
                            bound as nat,
                            k as nat,
                        ),
                        spell_named(ecs.kinds.spells@, known[k as int].name@, bound as nat, 0)
                            == spell_named(
                            ecs.kinds.spells@,
                            known[k as int].name@,
                            bound as nat,
                            id as nat,
                        ),
                    decreases bound - id,
                {
                    let e = Entity { id };
                    match ecs.kinds.spells.get(e) {
                        Some(spell) => {
                            if spell.name == known[k].name {
                                return Some(e);
                            }
                        },
                        None => {},
                    }
                    id = id + 1;
                }
                k = k + 1;
            }
            None
        },
        None => None,
    }
}


/// What a key asks for while the game waits for the player.
#[derive(Clone, Copy, PartialEq, Eq, Structural, Debug)]
pub enum Command {
    Nothing,
    Step(i32, i32),
    Cast,
    PickUp,
    Wait,
    OpenInventory,
    OpenDrop,
    OpenRemove,
    Save,
    Descend,
}

/// The command of each key: arrows, the number pad and the letters
/// H J K L Y U B N walk; `1` casts; G picks up; space and the middle of
/// the number pad wait; I, D and R open the menus; escape saves; the
/// period descends.
pub open spec fn command_for(key: Option<Key>) -> Command {
    match key {
        None => Command::Nothing,
        Some(Key::Left) | Some(Key::Numpad4) => Command::Step((-1) as i32, 0),
        Some(Key::Right) | Some(Key::Numpad6) => Command::Step(1, 0),
        Some(Key::Up) | Some(Key::Numpad8) => Command::Step(0, (-1) as i32),
        Some(Key::Down) | Some(Key::Numpad2) => Command::Step(0, 1),
        Some(Key::Numpad9) => Command::Step(1, (-1) as i32),
        Some(Key::Numpad7) => Command::Step((-1) as i32, (-1) as i32),
        Some(Key::Numpad3) => Command::Step(1, 1),
        Some(Key::Numpad1) => Command::Step((-1) as i32, 1),
        Some(Key::Key1) => Command::Cast,
        Some(Key::Numpad5) | Some(Key::Space) => Command::Wait,
        Some(Key::Escape) => Command::Save,
        Some(Key::Period) => Command::Descend,
        Some(Key::Letter(n)) => if n == LETTER_H {
            Command::Step((-1) as i32, 0)
        } else if n == LETTER_L {
            Command::Step(1, 0)
        } else if n == LETTER_K {
            Command::Step(0, (-1) as i32)
        } else if n == LETTER_J {
            Command::Step(0, 1)
        } else if n == LETTER_Y {
            Command::Step(1, (-1) as i32)
        } else if n == LETTER_U {
            Command::Step((-1) as i32, (-1) as i32)
        } else if n == LETTER_N {
            Command::Step(1, 1)
        } else if n == LETTER_B {
            Command::Step((-1) as i32, 1)
        } else if n == LETTER_G {
            Command::PickUp
        } else if n == LETTER_I {
            Command::OpenInventory
        } else if n == LETTER_D {
            Command::OpenDrop
        } else if n == LETTER_R {
            Command::OpenRemove
        } else {
            Command::Nothing
        },
        Some(Key::Other) => Command::Nothing,
    }
}

/// The command of `key`.
pub fn command_of(key: Option<Key>) -> (c: Command)
    ensures
        c == command_for(key),
{
    match key {
        None => Command::Nothing,
        Some(key) => match key {
            Key::Left | Key::Numpad4 => Command::Step(-1, 0),
            Key::Right | Key::Numpad6 => Command::Step(1, 0),
            Key::Up | Key::Numpad8 => Command::Step(0, -1),
            Key::Down | Key::Numpad2 => Command::Step(0, 1),
            Key::Numpad9 => Command::Step(1, -1),
            Key::Numpad7 => Command::Step(-1, -1),
            Key::Numpad3 => Command::Step(1, 1),
            Key::Numpad1 => Command::Step(-1, 1),
            Key::Key1 => Command::Cast,
            Key::Numpad5 | Key::Space => Command::Wait,
            Key::Escape => Command::Save,
            Key::Period => Command::Descend,
            Key::Letter(n) => {
                if n == LETTER_H {
                    Command::Step(-1, 0)
                } else if n == LETTER_L {
                    Command::Step(1, 0)
                } else if n == LETTER_K {
                    Command::Step(0, -1)
                } else if n == LETTER_J {
                    Command::Step(0, 1)
                } else if n == LETTER_Y {
                    Command::Step(1, -1)
                } else if n == LETTER_U {
                    Command::Step(-1, -1)
                } else if n == LETTER_N {
                    Command::Step(1, 1)
                } else if n == LETTER_B {
                    Command::Step(-1, 1)
                } else if n == LETTER_G {
                    Command::PickUp
                } else if n == LETTER_I {
                    Command::OpenInventory
                } else if n == LETTER_D {
                    Command::OpenDrop
                } else if n == LETTER_R {
                    Command::OpenRemove
                } else {
                    Command::Nothing
                }
            },
            Key::Other => Command::Nothing,
        },
    }
}

/// The run state that follows `command`, given the world before it.
pub open spec fn state_after(world: &World, command: Command) -> RunState {
    match command {
        Command::Nothing => RunState::AwaitingInput,
        Command::Step(_, _) => RunState::PlayerTurn,
        Command::Cast => match castable(world) {
            Some(e) => RunState::ShowTargeting {
                range: world.kinds.spells@[e].range,
                targetable: e,
            },
            None => RunState::PlayerTurn,
        },
        Command::PickUp => RunState::PlayerTurn,
        Command::Wait => RunState::PlayerTurn,
        Command::OpenInventory => RunState::ShowInventory,
        Command::OpenDrop => RunState::ShowDropItem,
        Command::OpenRemove => RunState::ShowRemoveItem,
        Command::Save => RunState::SaveGame,
        Command::Descend => if on_stairs(world) {
            RunState::NextLevel
        } else {
            RunState::AwaitingInput
        },
    }
}

/// `after` is `before` with `command` carried out.
pub open spec fn carried_out(
    before: &World,
    after: &World,
    command: Command,
    world_size: Position,
) -> bool {
    match command {
        Command::Step(dx, dy) => came_to(
            before,
            after,
            step_outcome(before, dx as int, dy as int, world_size),
        ),
        Command::PickUp => reached_down(before, after),
        Command::Descend => looked_down(before, after),
        _ => *after == *before,
    }
}

/// Answers the key pressed while the game waits for the player, and says
/// which run state follows.
pub fn player_input(gs: &mut State, key: Option<Key>, world_size: Position) -> (next: RunState)
    requires
        old(gs).ecs.map.wf(),
        on_map(old(gs).ecs.player_pos.x as int, old(gs).ecs.player_pos.y as int),
        world_size.x >= 1,
        world_size.y >= 1,
    ensures
        next == state_after(&old(gs).ecs, command_for(key)),
        carried_out(&old(gs).ecs, &final(gs).ecs, command_for(key), world_size),
        final(gs).waiting == old(gs).waiting,
{
    match command_of(key) {
        Command::Nothing => RunState::AwaitingInput,
        Command::Step(dx, dy) => {
            try_move_player(dx, dy, &mut gs.ecs, world_size);
            RunState::PlayerTurn
        },
        Command::Cast => {
            match find_castable(&gs.ecs) {
                Some(entity) => {
                    match gs.ecs.kinds.spells.get(entity) {
                        Some(spell) => RunState::ShowTargeting {
                            range: spell.range,
                            targetable: entity,
                        },
                        None => RunState::PlayerTurn,
                    }
                },
                None => RunState::PlayerTurn,
            }
        },
        Command::PickUp => {
            get_item(&mut gs.ecs);
            RunState::PlayerTurn
        },
        Command::Wait => RunState::PlayerTurn,
        Command::OpenInventory => RunState::ShowInventory,
        Command::OpenDrop => RunState::ShowDropItem,
        Command::OpenRemove => RunState::ShowRemoveItem,
        Command::Save => RunState::SaveGame,
        Command::Descend => {
            if try_next_level(&mut gs.ecs) {
                RunState::NextLevel
            } else {
                RunState::AwaitingInput
            }
        },
    }
}

} // verus!
