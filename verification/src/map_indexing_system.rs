//! Rebuilds the two caches of the level from where everything stands.

use crate::geometry::Position;
use crate::map::{on_map, tile_index, TileMap, TileType, TILE_COUNT};
use crate::store::Entity;
use crate::world::World;
use vstd::prelude::*;

verus! {

/// `e` has a place, and it is the tile with index `i`.
pub open spec fn stands_on(positions: Map<Entity, Position>, e: Entity, i: int) -> bool {
    positions.dom().contains(e) && on_map(positions[e].x as int, positions[e].y as int)
        && tile_index(positions[e].x as int, positions[e].y as int) == i
}

/// Those of the first `bound` entities that stand on tile `i`, in the
/// order of their identifiers.
pub open spec fn standing_on(positions: Map<Entity, Position>, bound: nat, i: int) -> Seq<Entity>
    decreases bound,
{
    if bound == 0 {
        Seq::empty()
    } else {
        let rest = standing_on(positions, (bound - 1) as nat, i);
        let e = Entity { id: (bound - 1) as usize };
        if stands_on(positions, e, i) {
            rest.push(e)
        } else {
            rest
        }
    }
}

/// The occupant list of a tile names exactly those who stand on it, each
/// once and in the order of the identifiers.
pub proof fn lemma_standing_on_lists_occupants(
    positions: Map<Entity, Position>,
    bound: nat,
    i: int,
)
    requires
        bound <= usize::MAX,
    ensures
        forall|e: Entity| #[trigger]
            standing_on(positions, bound, i).contains(e) ==> e.id < bound && stands_on(
                positions,
                e,
                i,
            ),
        forall|e: Entity|
            e.id < bound && #[trigger] stands_on(positions, e, i) ==> standing_on(
                positions,
                bound,
                i,
            ).contains(e),
        forall|a: int, b: int|
            0 <= a < b < standing_on(positions, bound, i).len() ==> standing_on(
                positions,
                bound,
                i,
            )[a].id < standing_on(positions, bound, i)[b].id,
    decreases bound,
{
    if bound > 0 {
        lemma_standing_on_lists_occupants(positions, (bound - 1) as nat, i);
        let rest = standing_on(positions, (bound - 1) as nat, i);
        let last = Entity { id: (bound - 1) as usize };
        let all = standing_on(positions, bound, i);
        let here = stands_on(positions, last, i);
        assert(all == if here {
            rest.push(last)
        } else {
            rest
        });
        assert forall|e: Entity| #[trigger] all.contains(e) implies e.id < bound && stands_on(
            positions,
            e,
            i,
        ) by {
            let k = choose|k: int| 0 <= k < all.len() && all[k] == e;
            if k < rest.len() {
                assert(rest[k] == e);
                assert(rest.contains(e));
            } else {
                assert(here && e == last);
            }
        }
        assert forall|e: Entity| e.id < bound && #[trigger] stands_on(
            positions,
            e,
            i,
        ) implies all.contains(e) by {
            if e.id < bound - 1 {
                assert(rest.contains(e));
                let k = choose|k: int| 0 <= k < rest.len() && rest[k] == e;
                assert(all[k] == e);
            } else {
                assert(e == last);
                assert(all[rest.len() as int] == e);
            }
        }
        assert forall|a: int, b: int| 0 <= a < b < all.len() implies all[a].id < all[b].id by {
            if b == rest.len() {
                assert(all[a] == rest[a]);
                assert(rest.contains(rest[a]));
                assert(all[b] == last);
            } else {
                assert(all[a] == rest[a] && all[b] == rest[b]);
            }
        }
    }
}

/// One of the first `bound` entities blocks its tile and stands on tile `i`.
pub open spec fn blocker_on(
    positions: Map<Entity, Position>,
    blockers: Set<Entity>,
    bound: nat,
    i: int,
) -> bool {
    exists|e: Entity| e.id < bound && blockers.contains(e) && #[trigger] stands_on(positions, e, i)
}

/// The caches of `map` are what the places in `world` make them: a tile
/// is blocked when it is a wall or a blocking entity stands on it, and it
/// lists exactly the entities that stand on it.
pub open spec fn is_index_of(map: &TileMap, world: &World) -> bool {
    let bound = world.entities.alive.len() as nat;
    &&& map.wf()
    &&& forall|i: int|
        0 <= i < TILE_COUNT ==> map.blocked[i] == (world.map.tiles[i] == TileType::Wall
            || blocker_on(world.positions@, world.kinds.blocks_tile@.dom(), bound, i))
    &&& forall|i: int|
        0 <= i < TILE_COUNT ==> (#[trigger] map.tile_content[i])@ == standing_on(
            world.positions@,
            bound,
            i,
        )
}

/// `after` is `before` with both caches rebuilt and nothing else changed.
pub open spec fn reindexed(before: &World, after: &World) -> bool {
    &&& is_index_of(&after.map, before)
    &&& after.map.same_ground(&before.map)
    &&& *after == (World { map: after.map, ..*before })
}

/// Rebuilds the blocked mask and the occupant lists.
pub struct MapIndexingSystem {}

impl MapIndexingSystem {
    /// Rebuilds both caches from the tiles and from where everyone stands.
    pub fn run(&mut self, world: &mut World)
        requires
            old(world).map.wf(),
        ensures
            reindexed(old(world), final(world)),
    {
        world.map.populate_blocked();
        world.map.clear_content_index();
        let bound = world.entities.bound();
        let mut id: usize = 0;
        assert forall|i: int| 0 <= i < TILE_COUNT implies !blocker_on(
            world.positions@,
            world.kinds.blocks_tile@.dom(),
            0,
            i,
        ) by {}
        while id < bound
            invariant
                0 <= id <= bound == old(world).entities.alive.len(),
                world.map.wf(),
                world.map.same_ground(&old(world).map),
                *world == (World { map: world.map, ..*old(world) }),
                forall|i: int|
                    0 <= i < TILE_COUNT ==> world.map.blocked[i] == (old(world).map.tiles[i]
                        == TileType::Wall || blocker_on(
                        old(world).positions@,
                        old(world).kinds.blocks_tile@.dom(),
                        id as nat,
                        i,
                    )),
                forall|i: int|
                    0 <= i < TILE_COUNT ==> (#[trigger] world.map.tile_content[i])@ == standing_on(
                        old(world).positions@,
                        id as nat,
                        i,
                    ),
            decreases bound - id,
        {
            let e = Entity { id };
            let ghost positions = old(world).positions@;
            let ghost blockers = old(world).kinds.blocks_tile@.dom();
            let place = match world.positions.get(e) {
                Some(p) => Some(*p),
                None => None,
            };
            let mut here: Option<usize> = None;
            match place {
                Some(p) => {
                    if world.map.in_bounds(p.x, p.y) {
                        let idx = world.map.xy_idxi32(p.x, p.y);
                        if world.kinds.blocks_tile.contains(e) {
                            world.map.blocked.set(idx, true);
                        }
                        world.map.tile_content[idx].push(e);
                        here = Some(idx);
                    }
                },
                None => {},
            }
            proof {
                assert forall|i: int| 0 <= i < TILE_COUNT implies (#[trigger] blocker_on(
                    positions,
                    blockers,
                    (id + 1) as nat,
                    i,
                ) <==> blocker_on(positions, blockers, id as nat, i) || (blockers.contains(e)
                    && stands_on(positions, e, i))) by {
                    if blocker_on(positions, blockers, (id + 1) as nat, i) {
                        let b = choose|b: Entity|
                            b.id < id + 1 && blockers.contains(b) && #[trigger] stands_on(
                                positions,
                                b,
                                i,
                            );
                        if b.id < id {
                            assert(blocker_on(positions, blockers, id as nat, i));
                        } else {
                            assert(b == e);
                        }
                    }
                    if blocker_on(positions, blockers, id as nat, i) {
                        let b = choose|b: Entity|
                            b.id < id && blockers.contains(b) && #[trigger] stands_on(
                                positions,
                                b,
                                i,
                            );
                        assert(b.id < id + 1 && stands_on(positions, b, i));
                    }
                    if blockers.contains(e) && stands_on(positions, e, i) {
                        assert(e.id < id + 1);
                    }
                }
                assert forall|i: int| 0 <= i < TILE_COUNT implies ((here == Some(i as usize))
                    <==> #[trigger] stands_on(positions, e, i)) by {}
                assert forall|i: int| 0 <= i < TILE_COUNT implies world.map.blocked[i] == (old(
                    world,
                ).map.tiles[i] == TileType::Wall || blocker_on(
                    positions,
                    blockers,
                    (id + 1) as nat,
                    i,
                )) by {
                    assert((here == Some(i as usize)) <==> stands_on(positions, e, i));
                }
            }
            id = id + 1;
        }
    }
}

/// Whoever has a place on the level is on the list of exactly one tile,
/// the one it stands on.
pub proof fn lemma_index_places_each_once(map: &TileMap, world: &World, e: Entity, i: int)
    requires
        is_index_of(map, world),
        e.id < world.entities.alive.len(),
        0 <= i < TILE_COUNT,
    ensures
        map.tile_content[i]@.contains(e) <==> stands_on(world.positions@, e, i),
{
    lemma_standing_on_lists_occupants(world.positions@, world.entities.alive.len() as nat, i);
}

/// Indexing twice is indexing once: a second run, with no place changed
/// in between, leaves the blocked mask and every occupant list as the
/// first run made them.
pub proof fn lemma_indexing_is_idempotent(start: &World, once: &World, twice: &World)
    requires
        reindexed(start, once),
        reindexed(once, twice),
    ensures
        twice.map.blocked@ == once.map.blocked@,
        forall|i: int|
            0 <= i < TILE_COUNT ==> twice.map.tile_content[i]@ == once.map.tile_content[i]@,
{
    assert(twice.map.blocked@ =~= once.map.blocked@);
}

} // verus!
