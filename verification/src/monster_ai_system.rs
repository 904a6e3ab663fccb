//! What a monster does in its turn.  Finding a path is the host's work:
//! the rules here say when a path is wanted and what is done with it.

use crate::components::{Viewshed, WantsToMelee};
use crate::geometry::{adjacent, is_adjacent, Position};
use crate::map::{on_map, tile_index, TileMap, TILE_COUNT, WIDTH};
use crate::store::Entity;
use crate::world::World;
use vstd::prelude::*;

verus! {

/// What a monster decides to do.
#[derive(Clone, Copy, PartialEq, Eq, Structural, Debug)]
pub enum MonsterPlan {
    /// Nothing: it is no monster, or it does not see the player.
    Idle,
    /// Hit the player, who stands next to it.
    Attack,
    /// Walk toward the player: a path from tile `start` to tile `end` is
    /// wanted.
    Chase { start: usize, end: usize },
}

/// A monster whose turn waits for a path from tile `start` to tile `end`.
#[derive(Clone, Copy, PartialEq, Eq, Structural, Debug)]
pub struct PathRequest {
    pub monster: Entity,
    pub start: usize,
    pub end: usize,
}

/// The plan of `monster`: a monster that sees the player's tile attacks
/// when it stands next to the player and chases otherwise.
pub open spec fn plan_of(world: &World, monster: Entity) -> MonsterPlan {
    if world.kinds.monsters@.dom().contains(monster) && world.viewsheds@.dom().contains(monster)
        && world.positions@.dom().contains(monster)
        && world.viewsheds@[monster].visible_tiles@.contains(world.player_pos) {
        let pos = world.positions@[monster];
        if adjacent(pos, world.player_pos) {
            MonsterPlan::Attack
        } else if on_map(pos.x as int, pos.y as int) && on_map(
            world.player_pos.x as int,
            world.player_pos.y as int,
        ) {
            MonsterPlan::Chase {
                start: tile_index(pos.x as int, pos.y as int) as usize,
                end: tile_index(world.player_pos.x as int, world.player_pos.y as int) as usize,
            }
        } else {
            MonsterPlan::Idle
        }
    } else {
        MonsterPlan::Idle
    }
}

/// Whether `tiles` holds `p`.
pub fn holds_tile(tiles: &Vec<Position>, p: Position) -> (r: bool)
    ensures
        r == tiles@.contains(p),
{
    let mut i: usize = 0;
    while i < tiles.len()
        invariant
            0 <= i <= tiles.len(),
            forall|k: int| 0 <= k < i ==> tiles[k] != p,
        decreases tiles.len() - i,
    {
        if tiles[i] == p {
            return true;
        }
        i = i + 1;
    }
    false
}

/// The tile that a monster steps onto when the path search has found
/// `steps`: the second tile of the path, if there is one on the map.
pub open spec fn next_step(steps: Seq<usize>) -> Option<usize> {
    if steps.len() > 1 && steps[1] < TILE_COUNT {
        Some(steps[1])
    } else {
        None
    }
}

/// `after` is `before` with `monster` moved to the tile `to`: the tile it
/// left is no longer blocked, the tile it stands on is, and its viewshed
/// is dirty.
pub open spec fn stepped(before: &World, after: &World, monster: Entity, to: usize) -> bool {
    let from = before.positions@[monster];
    let here = Position { x: (to % WIDTH) as i32, y: (to / WIDTH) as i32 };
    &&& *after == (World {
        positions: after.positions,
        viewsheds: after.viewsheds,
        map: after.map,
        ..*before
    })
    &&& after.positions@ == before.positions@.insert(monster, here)
    &&& after.viewsheds@.dom() == before.viewsheds@.dom()
    &&& forall|e: Entity|
        e != monster && before.viewsheds@.dom().contains(e) ==> #[trigger] after.viewsheds@[e]
            == before.viewsheds@[e]
    &&& after.viewsheds@[monster] == (Viewshed { dirty: true, ..before.viewsheds@[monster] })
    &&& after.map == (TileMap { blocked: after.map.blocked, ..before.map })
    &&& after.map.blocked@ == (if on_map(from.x as int, from.y as int) {
        before.map.blocked@.update(tile_index(from.x as int, from.y as int), false)
    } else {
        before.map.blocked@
    }).update(to as int, true)
}

/// `after` is `before` with `monster` having followed the path `steps`:
/// it has moved to the second tile of the path, if there is one on the map
/// and the monster has a place and a viewshed; else nothing has changed.
pub open spec fn followed(before: &World, after: &World, monster: Entity, steps: Seq<usize>)
    -> bool {
    match next_step(steps) {
        Some(to) => if before.positions@.dom().contains(monster)
            && before.viewsheds@.dom().contains(monster) {
            stepped(before, after, monster, to)
        } else {
            *after == *before
        },
        None => *after == *before,
    }
}

/// Decides and carries out the turns of the monsters.
pub struct MonsterAI {}

impl MonsterAI {
    /// Decides what `monster` does.
    pub fn plan(world: &World, monster: Entity) -> (p: MonsterPlan)
        ensures
            p == plan_of(world, monster),
    {
        if !world.kinds.monsters.contains(monster) {
            return MonsterPlan::Idle;
        }
        let sees = match world.viewsheds.get(monster) {
            Some(viewshed) => holds_tile(&viewshed.visible_tiles, world.player_pos),
            None => false,
        };
        match world.positions.get(monster) {
            Some(pos) => {
                if !sees {
                    MonsterPlan::Idle
                } else if is_adjacent(*pos, world.player_pos) {
                    MonsterPlan::Attack
                } else if world.map.in_bounds(pos.x, pos.y) && world.map.in_bounds(
                    world.player_pos.x,
                    world.player_pos.y,
                ) {
                    MonsterPlan::Chase {
                        start: world.map.xy_idxi32(pos.x, pos.y),
                        end: world.map.xy_idxi32(world.player_pos.x, world.player_pos.y),
                    }
                } else {
                    MonsterPlan::Idle
                }
            },
            None => MonsterPlan::Idle,
        }
    }

    /// Records that `monster` wants to hit the player.
    pub fn attack(world: &mut World, monster: Entity)
        ensures
            final(world).intents.melee@ == old(world).intents.melee@.insert(
                monster,
                WantsToMelee { target: old(world).player },
            ),
            *final(world) == (World {
                intents: crate::world::Intents {
                    melee: final(world).intents.melee,
                    ..old(world).intents
                },
                ..*old(world)
            }),
    {
        let target = world.player;
        world.intents.melee.insert(monster, WantsToMelee { target });
    }

    /// Moves `monster` one tile along the path `steps`, which starts at
    /// the monster's own tile.  Without a second tile on the map, or for
    /// a monster without a place or a viewshed, nothing happens.
    pub fn follow(world: &mut World, monster: Entity, steps: &Vec<usize>)
        requires
            old(world).map.wf(),
        ensures
            followed(old(world), final(world), monster, steps@),
            final(world).map.wf(),
            old(world).wf() ==> final(world).wf(),
    {
        if steps.len() > 1 && steps[1] < TILE_COUNT && world.viewsheds.contains(monster) {
            let place = match world.positions.get(monster) {
                Some(p) => Some(*p),
                None => None,
            };
            match place {
                Some(pos) => {
                    let to = steps[1];
                    if world.map.in_bounds(pos.x, pos.y) {
                        let idx = world.map.xy_idxi32(pos.x, pos.y);
                        world.map.blocked.set(idx, false);
                    }
                    let (x, y) = TileMap::idx_to_xy(to);
                    world.positions.insert(monster, Position { x: x as i32, y: y as i32 });
                    world.map.blocked.set(to, true);
                    let taken = world.viewsheds.remove(monster);
                    let mut viewshed = taken.unwrap();
                    viewshed.dirty = true;
                    world.viewsheds.insert(monster, viewshed);
                    assert(world.viewsheds@.dom() =~= old(world).viewsheds@.dom());
                },
                None => {},
            }
        }
    }
}


/// The first entity with an identifier in `from..bound` that wants to
/// chase the player.
pub open spec fn next_chaser(world: &World, from: nat, bound: nat) -> Option<Entity>
    decreases bound - from,
{
    if from >= bound {
        None
    } else {
        let e = Entity { id: from as usize };
        if plan_of(world, e) is Chase {
            Some(e)
        } else {
            next_chaser(world, from + 1, bound)
        }
    }
}

/// The request for the path that the chaser `e` wants.
pub open spec fn request_of(world: &World, e: Entity) -> PathRequest {
    PathRequest { monster: e, start: plan_of(world, e)->start, end: plan_of(world, e)->end }
}

/// `e` is an entity with an identifier in `from..stop` that attacks.
pub open spec fn attacks(world: &World, from: nat, stop: nat, e: Entity) -> bool {
    from <= e.id < stop && plan_of(world, e) == MonsterPlan::Attack
}

/// `after` is `before` with the monsters from `from` on having had their
/// turn, up to the first that wants to chase the player: `request` asks
/// for its path.  Without such a monster all have had their turn and
/// `request` is empty.  Each monster before that one wants to hit the
/// player if it attacks, and nothing else has changed.
pub open spec fn passed(before: &World, after: &World, from: nat, request: Option<PathRequest>)
    -> bool {
    let bound = before.entities.alive.len() as nat;
    let chaser = next_chaser(before, from, bound);
    let stop = match chaser {
        Some(e) => e.id as nat,
        None => bound,
    };
    &&& request == match chaser {
        Some(e) => Some(request_of(before, e)),
        None => None,
    }
    &&& after.intents.melee@ == Map::new(
        |e: Entity| before.intents.melee@.dom().contains(e) || attacks(before, from, stop, e),
        |e: Entity|
            if attacks(before, from, stop, e) {
                WantsToMelee { target: before.player }
            } else {
                before.intents.melee@[e]
            },
    )
    &&& *after == (World {
        intents: crate::world::Intents { melee: after.intents.melee, ..before.intents },
        ..*before
    })
}

impl MonsterAI {
    /// Gives the monsters from `from` on their turn, up to the first one
    /// that needs a path, and asks for that path.
    pub fn run(world: &mut World, from: usize) -> (request: Option<PathRequest>)
        ensures
            passed(old(world), final(world), from as nat, request),
            request is Some ==> from <= (request->0).monster.id < old(world).entities.alive.len(),
    {
        let bound = world.entities.bound();
        let mut id: usize = from;
        assert(world.intents.melee@ =~= Map::new(
            |e: Entity|
                old(world).intents.melee@.dom().contains(e) || attacks(
                    old(world),
                    from as nat,
                    id as nat,
                    e,
                ),
            |e: Entity|
                if attacks(old(world), from as nat, id as nat, e) {
                    WantsToMelee { target: old(world).player }
                } else {
                    old(world).intents.melee@[e]
                },
        ));
        while id < bound
            invariant
                bound == old(world).entities.alive.len(),
                from <= id,
                id <= bound || id == from,
                next_chaser(old(world), from as nat, bound as nat) == next_chaser(
                    old(world),
                    id as nat,
                    bound as nat,
                ),
                world.intents.melee@ == Map::new(
                    |e: Entity|
                        old(world).intents.melee@.dom().contains(e) || attacks(
                            old(world),
                            from as nat,
                            id as nat,
                            e,
                        ),
                    |e: Entity|
                        if attacks(old(world), from as nat, id as nat, e) {
                            WantsToMelee { target: old(world).player }
                        } else {
                            old(world).intents.melee@[e]
                        },
                ),
                *world == (World {
                    intents: crate::world::Intents {
                        melee: world.intents.melee,
                        ..old(world).intents
                    },
                    ..*old(world)
                }),
            decreases bound - id,
        {
            let e = Entity { id };
            let plan = MonsterAI::plan(world, e);
            assert(plan == plan_of(old(world), e));
            match plan {
                MonsterPlan::Idle => {},
                MonsterPlan::Attack => {
                    MonsterAI::attack(world, e);
                },
                MonsterPlan::Chase { start, end } => {
                    return Some(PathRequest { monster: e, start, end });
                },
            }
            assert(world.intents.melee@ =~= Map::new(
                |o: Entity|
                    old(world).intents.melee@.dom().contains(o) || attacks(
                        old(world),
                        from as nat,
                        (id + 1) as nat,
                        o,
                    ),
                |o: Entity|
                    if attacks(old(world), from as nat, (id + 1) as nat, o) {
                        WantsToMelee { target: old(world).player }
                    } else {
                        old(world).intents.melee@[o]
                    },
            ));
            id = id + 1;
        }
        proof {
            assert(next_chaser(old(world), from as nat, bound as nat) is None);
            assert(world.intents.melee@ =~= Map::new(
                |o: Entity|
                    old(world).intents.melee@.dom().contains(o) || attacks(
                        old(world),
                        from as nat,
                        bound as nat,
                        o,
                    ),
                |o: Entity|
                    if attacks(old(world), from as nat, bound as nat, o) {
                        WantsToMelee { target: old(world).player }
                    } else {
                        old(world).intents.melee@[o]
                    },
            ));
        }
        None
    }
}

} // verus!
