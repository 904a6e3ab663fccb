//! Recomputes what each entity sees and reveals the level to the player.

use crate::components::Viewshed;
use crate::geometry::Position;
use crate::map::{on_map, tile_index, TileMap, TileType, TILE_COUNT};
use crate::store::Entity;
use crate::world::World;
use vstd::prelude::*;

verus! {

/// The widest range that is handed to the field-of-view computation.
/// It lies far beyond the level: no two tiles are more than 78 apart.
pub const MAX_SIGHT: i32 = 255;

/// The range with which a viewshed of range `range` looks: a negative
/// range counts by its size, and a range beyond `MAX_SIGHT` is cut to it.
pub open spec fn sight_range(range: int) -> int {
    let size = if range < 0 {
        -range
    } else {
        range
    };
    if size > MAX_SIGHT {
        MAX_SIGHT as int
    } else {
        size
    }
}

/// The range with which a viewshed of range `range` looks.
pub fn range_of_sight(range: i32) -> (cut: i32)
    ensures
        cut == sight_range(range as int),
        0 <= cut <= MAX_SIGHT,
{
    if range > MAX_SIGHT || range < -MAX_SIGHT {
        MAX_SIGHT
    } else if range < 0 {
        -range
    } else {
        range
    }
}

/// The console library's point, a pair of coordinates.  It is only
/// handed on, never looked into.
#[verifier::external_type_specification]
#[verifier::external_body]
pub struct ExPoint(rltk::Point);

/// The console library's point in column `x` of row `y`.
pub uninterp spec fn point_at(x: int, y: int) -> rltk::Point;

/// `rltk::Point::constant` builds the point with the two coordinates it
/// is given and nothing else in it.  The point is opaque here, so the
/// contract gives it the name `point_at(x, y)`: the same coordinates make
/// the same point.
pub assume_specification[ rltk::Point::constant ](x: i32, y: i32) -> (p: rltk::Point)
    ensures
        p == point_at(x as int, y as int),
;

impl rltk::BaseMap for TileMap {
    /// Whether the tile with index `idx` stops sight: a wall does.  An
    /// index beyond the last tile names no tile and stops nothing.
    fn is_opaque(&self, idx: usize) -> (opaque: bool)
        ensures
            opaque == (idx < self.tiles.len() && self.opacity()[idx as int]),
    {
        self.opaque_at(idx)
    }
}

impl rltk::Algorithm2D for TileMap {
    /// The size of the level: the point whose column is the level's
    /// width and whose row is its height, the first point beyond the level
    /// in both directions.
    fn dimensions(&self) -> (size: rltk::Point)
        ensures
            size == point_at(self.width as int, self.height as int),
    {
        rltk::Point::constant(self.width, self.height)
    }
}

impl TileMap {
    /// For each tile, whether it stops sight.
    pub open spec fn opacity(&self) -> Seq<bool> {
        Seq::new(self.tiles.len() as nat, |i: int| self.tiles[i] == TileType::Wall)
    }
}

/// The tiles, as column and row, that the field-of-view computation of the
/// console library finds visible from the tile `(x, y)` within `range`, on
/// a level of the fixed size whose tiles stop sight as `opaque` says.
pub uninterp spec fn sight(opaque: Seq<bool>, x: int, y: int, range: int) -> Set<(int, int)>;

/// `tiles` lists what is seen from `(x, y)` within `range` on `map`: every
/// seen tile once, in no particular order, and all of them on the map.
pub open spec fn lists_sight(tiles: Seq<Position>, map: &TileMap, x: int, y: int, range: int)
    -> bool {
    &&& tiles.no_duplicates()
    &&& forall|k: int|
        0 <= k < tiles.len() ==> on_map((#[trigger] tiles[k]).x as int, tiles[k].y as int)
    &&& forall|p: Position|
        tiles.contains(p) <==> sight(map.opacity(), x, y, range).contains(
            (p.x as int, p.y as int),
        )
}

/// Calls `rltk::field_of_view` for the tile `(x, y)` on `map`.  That
/// function casts shadows from the tiles for which `is_opaque` answers
/// true, collects the seen tiles in a hash set and keeps those within the
/// map's dimensions.  The contract names the set `sight(..)` and states
/// what the collecting shows: no tile twice, every tile on the map.  The
/// order is that of the hash set and is left open.
#[verifier::external_body]
pub(crate) fn field_of_view(map: &TileMap, x: i32, y: i32, range: i32) -> (tiles: Vec<Position>)
    requires
        map.wf(),
        on_map(x as int, y as int),
        0 <= range <= MAX_SIGHT,
    ensures
        tiles@.no_duplicates(),
        forall|k: int|
            0 <= k < tiles.len() ==> on_map((#[trigger] tiles[k]).x as int, tiles[k].y as int),
        forall|p: Position|
            tiles@.contains(p) <==> sight(map.opacity(), x as int, y as int, range as int).contains(
                (p.x as int, p.y as int),
            ),
{
    let seen = rltk::field_of_view(rltk::Point::constant(x, y), range, map);
    let mut tiles: Vec<Position> = Vec::new();
    for p in seen.iter() {
        tiles.push(Position { x: p.x, y: p.y });
    }
    tiles
}

/// Some tile of `tiles` has the index `i`.
pub open spec fn shows(tiles: Seq<Position>, i: int) -> bool {
    exists|k: int|
        0 <= k < tiles.len() && tile_index((#[trigger] tiles[k]).x as int, tiles[k].y as int) == i
}

/// The level after the player has looked and seen `tiles`: exactly the
/// seen tiles are visible, and they are revealed along with all that was
/// revealed before.
pub open spec fn looked(before: &TileMap, after: &TileMap, tiles: Seq<Position>) -> bool {
    &&& *after == (TileMap {
        visible_tiles: after.visible_tiles,
        revealed_tiles: after.revealed_tiles,
        ..*before
    })
    &&& after.wf()
    &&& after.visible_tiles@ == Seq::new(TILE_COUNT as nat, |i: int| shows(tiles, i))
    &&& after.revealed_tiles@ == Seq::new(
        TILE_COUNT as nat,
        |i: int| before.revealed_tiles[i] || shows(tiles, i),
    )
}

/// Marks exactly `tiles` visible and reveals them.
pub fn reveal_tiles(map: &mut TileMap, tiles: &Vec<Position>)
    requires
        old(map).wf(),
        forall|k: int|
            0 <= k < tiles.len() ==> on_map((#[trigger] tiles[k]).x as int, tiles[k].y as int),
    ensures
        looked(old(map), final(map), tiles@),
{
    let mut i: usize = 0;
    while i < map.visible_tiles.len()
        invariant
            map.wf(),
            *map == (TileMap { visible_tiles: map.visible_tiles, ..*old(map) }),
            0 <= i <= TILE_COUNT,
            forall|k: int| 0 <= k < i ==> !map.visible_tiles[k],
        decreases TILE_COUNT - i,
    {
        map.visible_tiles.set(i, false);
        i = i + 1;
    }
    let mut k: usize = 0;
    while k < tiles.len()
        invariant
            0 <= k <= tiles.len(),
            old(map).wf(),
            map.wf(),
            forall|j: int|
                0 <= j < tiles.len() ==> on_map((#[trigger] tiles[j]).x as int, tiles[j].y as int),
            *map == (TileMap {
                visible_tiles: map.visible_tiles,
                revealed_tiles: map.revealed_tiles,
                ..*old(map)
            }),
            forall|i: int|
                0 <= i < TILE_COUNT ==> map.visible_tiles[i] == shows(tiles@.take(k as int), i),
            forall|i: int|
                0 <= i < TILE_COUNT ==> map.revealed_tiles[i] == (old(map).revealed_tiles[i]
                    || shows(tiles@.take(k as int), i)),
        decreases tiles.len() - k,
    {
        let vis = tiles[k];
        assert(on_map(tiles[k as int].x as int, tiles[k as int].y as int));
        let idx = map.xy_idxi32(vis.x, vis.y);
        map.revealed_tiles.set(idx, true);
        map.visible_tiles.set(idx, true);
        proof {
            let done = tiles@.take(k as int);
            let more = tiles@.take(k as int + 1);
            assert(more[k as int] == vis);
            assert forall|i: int| 0 <= i < TILE_COUNT implies (#[trigger] shows(more, i) <==> shows(
                done,
                i,
            ) || i == idx) by {
                if shows(done, i) {
                    let j = choose|j: int|
                        0 <= j < done.len() && tile_index(
                            (#[trigger] done[j]).x as int,
                            done[j].y as int,
                        ) == i;
                    assert(more[j] == done[j]);
                }
                if shows(more, i) {
                    let j = choose|j: int|
                        0 <= j < more.len() && tile_index(
                            (#[trigger] more[j]).x as int,
                            more[j].y as int,
                        ) == i;
                    if j < k {
                        assert(done[j] == more[j]);
                    }
                }
            }
        }
        k = k + 1;
    }
    assert(tiles@.take(tiles.len() as int) =~= tiles@);
    assert(map.visible_tiles@ =~= Seq::new(TILE_COUNT as nat, |i: int| shows(tiles@, i)));
    assert(map.revealed_tiles@ =~= Seq::new(
        TILE_COUNT as nat,
        |i: int| old(map).revealed_tiles[i] || shows(tiles@, i),
    ));
}

/// Whether the viewshed of `e` is computed anew in this tick: `e` is one
/// of the first `bound` entities, its viewshed is dirty, and `e` stands
/// on the map.
pub open spec fn looks(world: &World, bound: nat, e: Entity) -> bool {
    &&& e.id < bound
    &&& world.viewsheds@.dom().contains(e)
    &&& world.viewsheds@[e].dirty
    &&& world.positions@.dom().contains(e)
    &&& on_map(world.positions@[e].x as int, world.positions@[e].y as int)
}

/// Which tiles are visible and which are revealed after those players
/// among the first `n` entities that look have looked, one after the
/// other.  `sheds` holds the viewsheds after the whole pass.
pub open spec fn shown_after(world: &World, sheds: Map<Entity, Viewshed>, bound: nat, n: nat) -> (
    Seq<bool>,
    Seq<bool>,
)
    decreases n,
{
    if n == 0 {
        (world.map.visible_tiles@, world.map.revealed_tiles@)
    } else {
        let before = shown_after(world, sheds, bound, (n - 1) as nat);
        let e = Entity { id: (n - 1) as usize };
        if looks(world, bound, e) && world.kinds.players@.dom().contains(e) {
            (
                Seq::new(TILE_COUNT as nat, |i: int| shows(sheds[e].visible_tiles@, i)),
                Seq::new(
                    TILE_COUNT as nat,
                    |i: int| before.1[i] || shows(sheds[e].visible_tiles@, i),
                ),
            )
        } else {
            before
        }
    }
}

/// `after` is `before` with every dirty viewshed computed anew and the
/// level revealed to the players.
pub open spec fn saw(before: &World, after: &World) -> bool {
    let bound = before.entities.alive.len() as nat;
    &&& *after == (World { viewsheds: after.viewsheds, map: after.map, ..*before })
    &&& after.viewsheds@.dom() == before.viewsheds@.dom()
    &&& forall|e: Entity| #[trigger]
        before.viewsheds@.dom().contains(e) ==> if looks(before, bound, e) {
            &&& !after.viewsheds@[e].dirty
            &&& after.viewsheds@[e].range == before.viewsheds@[e].range
            &&& lists_sight(
                after.viewsheds@[e].visible_tiles@,
                &before.map,
                before.positions@[e].x as int,
                before.positions@[e].y as int,
                sight_range(before.viewsheds@[e].range as int),
            )
        } else {
            after.viewsheds@[e] == before.viewsheds@[e]
        }
    &&& after.map == (TileMap {
        visible_tiles: after.map.visible_tiles,
        revealed_tiles: after.map.revealed_tiles,
        ..before.map
    })
    &&& after.map.visible_tiles@ == shown_after(before, after.viewsheds@, bound, bound).0
    &&& after.map.revealed_tiles@ == shown_after(before, after.viewsheds@, bound, bound).1
}

/// After everyone has looked no viewshed of anyone who stands on the
/// level is dirty.
pub proof fn lemma_seeing_leaves_none_dirty(before: &World, after: &World, e: Entity)
    requires
        saw(before, after),
        e.id < before.entities.alive.len(),
        before.viewsheds@.dom().contains(e),
        before.positions@.dom().contains(e),
        on_map(before.positions@[e].x as int, before.positions@[e].y as int),
    ensures
        after.viewsheds@.dom().contains(e),
        !after.viewsheds@[e].dirty,
        after.viewsheds@[e].range == before.viewsheds@[e].range,
{
}

/// Looking never hides a tile that was revealed: whoever looks, what was
/// revealed before the pass is revealed after it.
pub proof fn lemma_seeing_keeps_revealed(
    world: &World,
    sheds: Map<Entity, Viewshed>,
    bound: nat,
    n: nat,
)
    requires
        world.map.wf(),
    ensures
        shown_after(world, sheds, bound, n).0.len() == TILE_COUNT,
        shown_after(world, sheds, bound, n).1.len() == TILE_COUNT,
        forall|i: int|
            0 <= i < TILE_COUNT && world.map.revealed_tiles[i] ==> #[trigger] shown_after(
                world,
                sheds,
                bound,
                n,
            ).1[i],
    decreases n,
{
    if n > 0 {
        lemma_seeing_keeps_revealed(world, sheds, bound, (n - 1) as nat);
    }
}


/// What is shown after the first `n` entities depends on their
/// viewsheds alone.
proof fn lemma_shown_after_reads_first(
    world: &World,
    sheds1: Map<Entity, Viewshed>,
    sheds2: Map<Entity, Viewshed>,
    bound: nat,
    n: nat,
)
    requires
        forall|e: Entity| e.id < n ==> #[trigger] sheds1[e] == sheds2[e],
        n <= usize::MAX,
    ensures
        shown_after(world, sheds1, bound, n) == shown_after(world, sheds2, bound, n),
    decreases n,
{
    if n > 0 {
        lemma_shown_after_reads_first(world, sheds1, sheds2, bound, (n - 1) as nat);
        let e = Entity { id: (n - 1) as usize };
        assert(sheds1[e] == sheds2[e]);
    }
}

/// Recomputes the dirty viewsheds and shows the players what they see.
pub struct VisibilitySystem {}

impl VisibilitySystem {
    /// Looks anew for everyone whose viewshed is dirty.
    pub fn run(&mut self, world: &mut World)
        requires
            old(world).map.wf(),
        ensures
            saw(old(world), final(world)),
            final(world).map.wf(),
            old(world).wf() ==> final(world).wf(),
            forall|i: int|
                0 <= i < TILE_COUNT && old(world).map.revealed_tiles[i]
                    ==> final(world).map.revealed_tiles[i],
    {
        let bound = world.entities.bound();
        let mut id: usize = 0;
        while id < bound
            invariant
                0 <= id <= bound == old(world).entities.alive.len(),
                old(world).map.wf(),
                world.map.wf(),
                *world == (World { viewsheds: world.viewsheds, map: world.map, ..*old(world) }),
                world.map == (TileMap {
                    visible_tiles: world.map.visible_tiles,
                    revealed_tiles: world.map.revealed_tiles,
                    ..old(world).map
                }),
                world.viewsheds@.dom() == old(world).viewsheds@.dom(),
                forall|e: Entity| #[trigger]
                    old(world).viewsheds@.dom().contains(e) ==> if e.id < id && looks(
                        old(world),
                        bound as nat,
                        e,
                    ) {
                        &&& !world.viewsheds@[e].dirty
                        &&& world.viewsheds@[e].range == old(world).viewsheds@[e].range
                        &&& lists_sight(
                            world.viewsheds@[e].visible_tiles@,
                            &old(world).map,
                            old(world).positions@[e].x as int,
                            old(world).positions@[e].y as int,
                            sight_range(old(world).viewsheds@[e].range as int),
                        )
                    } else {
                        world.viewsheds@[e] == old(world).viewsheds@[e]
                    },
                world.map.visible_tiles@ == shown_after(
                    old(world),
                    world.viewsheds@,
                    bound as nat,
                    id as nat,
                ).0,
                world.map.revealed_tiles@ == shown_after(
                    old(world),
                    world.viewsheds@,
                    bound as nat,
                    id as nat,
                ).1,
            decreases bound - id,
        {
            let e = Entity { id };
            let ghost sheds_before = world.viewsheds@;
            let place = match world.positions.get(e) {
                Some(p) => Some(*p),
                None => None,
            };
            let wanted = match world.viewsheds.get(e) {
                Some(v) => v.dirty,
                None => false,
            };
            let mut looked_now = false;
            match place {
                Some(p) => {
                    if wanted && world.map.in_bounds(p.x, p.y) {
                        let taken = world.viewsheds.remove(e);
                        let mut shed = taken.unwrap();
                        shed.dirty = false;
                        assert(world.map.opacity() =~= old(world).map.opacity());
                        shed.visible_tiles = field_of_view(
                            &world.map,
                            p.x,
                            p.y,
                            range_of_sight(shed.range),
                        );
                        if world.kinds.players.contains(e) {
                            reveal_tiles(&mut world.map, &shed.visible_tiles);
                        }
                        world.viewsheds.insert(e, shed);
                        looked_now = true;
                        assert(world.viewsheds@.dom() =~= old(world).viewsheds@.dom());
                    }
                },
                None => {},
            }
            proof {
                assert(looked_now == looks(old(world), bound as nat, e));
                lemma_shown_after_reads_first(
                    old(world),
                    sheds_before,
                    world.viewsheds@,
                    bound as nat,
                    id as nat,
                );
                assert(world.map.visible_tiles@ =~= shown_after(
                    old(world),
                    world.viewsheds@,
                    bound as nat,
                    (id + 1) as nat,
                ).0);
                assert(world.map.revealed_tiles@ =~= shown_after(
                    old(world),
                    world.viewsheds@,
                    bound as nat,
                    (id + 1) as nat,
                ).1);
            }
            id = id + 1;
        }
        proof {
            lemma_seeing_keeps_revealed(old(world), world.viewsheds@, bound as nat, bound as nat);
        }
    }
}

} // verus!
