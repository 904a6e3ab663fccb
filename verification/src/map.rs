//! The tile map of one dungeon level and the caches that go with it.

use crate::rect::Rect;
use crate::store::Entity;
use std::collections::HashSet;
use vstd::prelude::*;

verus! {

/// Number of tile columns of every level.
pub const WIDTH: usize = 66;

/// Number of tile rows of every level.
pub const HEIGHT: usize = 43;

/// Number of tiles of every level.
pub const TILE_COUNT: usize = 2838;

/// What a tile is made of.
#[derive(Clone, Copy, PartialEq, Eq, Structural, Debug)]
pub enum TileType {
    Wall,
    Floor,
    DownStairs,
}

/// Cost of a step to an orthogonal neighbour, in hundredths.
pub const STRAIGHT_COST: u32 = 100;

/// Cost of a step to a diagonal neighbour, in hundredths.
pub const DIAGONAL_COST: u32 = 145;

/// One level: the tiles, what the player has seen of them, and two caches
/// that are rebuilt every tick, `blocked` and `tile_content`.
pub struct TileMap {
    pub tiles: Vec<TileType>,
    pub rooms: Vec<Rect>,
    pub revealed_tiles: Vec<bool>,
    pub visible_tiles: Vec<bool>,
    pub blocked: Vec<bool>,
    pub width: i32,
    pub height: i32,
    pub depth: i32,
    pub bloodstains: HashSet<usize>,
    pub tile_content: Vec<Vec<Entity>>,
}

/// Row-major index of the tile in column `x` of row `y`.
pub open spec fn tile_index(x: int, y: int) -> int {
    y * WIDTH as int + x
}

/// `(x, y)` names a tile of the level.
pub open spec fn on_map(x: int, y: int) -> bool {
    0 <= x < WIDTH && 0 <= y < HEIGHT
}

/// `(x, y)` names a tile of the level that is not on its outer ring.
pub open spec fn in_interior(x: int, y: int) -> bool {
    0 < x < WIDTH - 1 && 0 < y < HEIGHT - 1
}

/// Indices and coordinates name the same tiles.
pub proof fn lemma_index_round_trip(x: int, y: int)
    requires
        on_map(x, y),
    ensures
        0 <= tile_index(x, y) < TILE_COUNT,
        tile_index(x, y) % (WIDTH as int) == x,
        tile_index(x, y) / (WIDTH as int) == y,
{
    assert(0 <= y * 66 + x < 2838 && (y * 66 + x) % 66 == x && (y * 66 + x) / 66 == y)
        by (nonlinear_arith)
        requires
            0 <= x < 66,
            0 <= y < 43,
    ;
}

/// Every index below the tile count names a tile.
pub proof fn lemma_index_names_tile(idx: int)
    requires
        0 <= idx < TILE_COUNT,
    ensures
        on_map(idx % (WIDTH as int), idx / (WIDTH as int)),
        tile_index(idx % (WIDTH as int), idx / (WIDTH as int)) == idx,
{
    assert(0 <= idx % 66 < 66 && 0 <= idx / 66 < 43 && (idx / 66) * 66 + idx % 66 == idx)
        by (nonlinear_arith)
        requires
            0 <= idx < 2838,
    ;
}

impl TileMap {
    /// The level has the fixed width and height, and every per-tile array
    /// has one entry for each tile.
    pub open spec fn wf(&self) -> bool {
        &&& self.width == WIDTH
        &&& self.height == HEIGHT
        &&& self.tiles.len() == TILE_COUNT
        &&& self.revealed_tiles.len() == TILE_COUNT
        &&& self.visible_tiles.len() == TILE_COUNT
        &&& self.blocked.len() == TILE_COUNT
        &&& self.tile_content.len() == TILE_COUNT
    }

    /// Whether the level is well formed.
    pub fn check(&self) -> (ok: bool)
        ensures
            ok == self.wf(),
    {
        self.width == 66 && self.height == 43 && self.tiles.len() == TILE_COUNT
            && self.revealed_tiles.len() == TILE_COUNT && self.visible_tiles.len() == TILE_COUNT
            && self.blocked.len() == TILE_COUNT && self.tile_content.len() == TILE_COUNT
    }

    /// Everything but the two caches is the same in `self` and `other`.
    pub open spec fn same_ground(&self, other: &TileMap) -> bool {
        &&& self.tiles@ == other.tiles@
        &&& self.rooms@ == other.rooms@
        &&& self.revealed_tiles@ == other.revealed_tiles@
        &&& self.visible_tiles@ == other.visible_tiles@
        &&& self.width == other.width
        &&& self.height == other.height
        &&& self.depth == other.depth
        &&& self.bloodstains@ == other.bloodstains@
    }

    /// Column and row of the tile with index `idx`.
    pub fn idx_to_xy(idx: usize) -> (xy: (usize, usize))
        ensures
            xy.0 == idx % WIDTH,
            xy.1 == idx / WIDTH,
            xy.0 < WIDTH,
            idx < TILE_COUNT ==> on_map(xy.0 as int, xy.1 as int) && tile_index(
                xy.0 as int,
                xy.1 as int,
            ) == idx,
    {
        proof {
            if idx < TILE_COUNT {
                lemma_index_names_tile(idx as int);
            }
        }
        let x = idx % WIDTH;
        let y = idx / WIDTH;
        (x, y)
    }

    /// Index of the tile in column `x` of row `y`.
    pub fn xy_idx_impl(x: usize, y: usize) -> (idx: usize)
        requires
            tile_index(x as int, y as int) <= usize::MAX,
        ensures
            idx == tile_index(x as int, y as int),
            on_map(x as int, y as int) ==> idx < TILE_COUNT,
    {
        proof {
            if on_map(x as int, y as int) {
                lemma_index_round_trip(x as int, y as int);
            }
            assert(y * WIDTH <= tile_index(x as int, y as int)) by (nonlinear_arith)
                requires
                    tile_index(x as int, y as int) == y * 66 + x,
                    WIDTH == 66,
                    x >= 0,
            ;
        }
        (y * WIDTH) + x
    }

    /// Index of the tile in column `x` of row `y`.
    pub fn xy_idx(&self, x: usize, y: usize) -> (idx: usize)
        requires
            tile_index(x as int, y as int) <= usize::MAX,
        ensures
            idx == tile_index(x as int, y as int),
            on_map(x as int, y as int) ==> idx < TILE_COUNT,
    {
        TileMap::xy_idx_impl(x, y)
    }

    /// Index of the tile in column `x` of row `y`, from signed coordinates.
    pub fn xy_idxi32(&self, x: i32, y: i32) -> (idx: usize)
        requires
            0 <= x,
            0 <= y,
            tile_index(x as int, y as int) <= usize::MAX,
        ensures
            idx == tile_index(x as int, y as int),
            on_map(x as int, y as int) ==> idx < TILE_COUNT,
    {
        self.xy_idx(x as usize, y as usize)
    }

    /// Whether `(x, y)` names a tile of the level.
    pub fn in_bounds(&self, x: i32, y: i32) -> (r: bool)
        ensures
            r == on_map(x as int, y as int),
    {
        0 <= x && x < 66 && 0 <= y && y < 43
    }

    /// Whether `(x, y)` names a tile inside the outer ring of the level.
    pub fn is_interior(&self, x: i32, y: i32) -> (r: bool)
        requires
            self.wf(),
        ensures
            r == in_interior(x as int, y as int),
    {
        x > 0 && x < self.width - 1 && y > 0 && y < self.height - 1
    }

    /// Whether the tile with index `idx` stops sight.
    pub fn opaque_at(&self, idx: usize) -> (r: bool)
        ensures
            r == (idx < self.tiles.len() && self.tiles[idx as int] == TileType::Wall),
    {
        idx < self.tiles.len() && self.tiles[idx] == TileType::Wall
    }

    /// Marks exactly the wall tiles as blocked.
    pub fn populate_blocked(&mut self)
        requires
            old(self).wf(),
        ensures
            final(self).wf(),
            final(self).same_ground(old(self)),
            final(self).tile_content == old(self).tile_content,
            forall|i: int|
                0 <= i < TILE_COUNT ==> final(self).blocked[i] == (old(self).tiles[i]
                    == TileType::Wall),
    {
        let mut i: usize = 0;
        while i < self.tiles.len()
            invariant
                self.wf(),
                self.same_ground(old(self)),
                self.tile_content == old(self).tile_content,
                0 <= i <= TILE_COUNT,
                forall|k: int| 0 <= k < i ==> self.blocked[k] == (self.tiles[k] == TileType::Wall),
            decreases TILE_COUNT - i,
        {
            let wall = self.tiles[i] == TileType::Wall;
            self.blocked.set(i, wall);
            i = i + 1;
        }
    }

    /// Empties the occupant list of every tile.
    pub fn clear_content_index(&mut self)
        ensures
            final(self).same_ground(old(self)),
            final(self).blocked == old(self).blocked,
            final(self).tile_content.len() == old(self).tile_content.len(),
            forall|i: int|
                0 <= i < final(self).tile_content.len() ==> final(self).tile_content[i]@
                    == Seq::<Entity>::empty(),
    {
        let mut i: usize = 0;
        while i < self.tile_content.len()
            invariant
                self.same_ground(old(self)),
                self.blocked == old(self).blocked,
                self.tile_content.len() == old(self).tile_content.len(),
                0 <= i <= self.tile_content.len(),
                forall|k: int| 0 <= k < i ==> self.tile_content[k]@ == Seq::<Entity>::empty(),
            decreases self.tile_content.len() - i,
        {
            self.tile_content[i].clear();
            i = i + 1;
        }
    }

    /// A step onto `(x, y)` is possible: the tile is off the first row and
    /// column, on the map, and not blocked.
    pub open spec fn exit_valid(&self, x: int, y: int) -> bool {
        1 <= x <= self.width - 1 && 1 <= y <= self.height - 1 && !self.blocked[tile_index(x, y)]
    }

    /// Whether something can step onto `(x, y)`.
    pub fn is_exit_valid(&self, x: i32, y: i32) -> (r: bool)
        requires
            self.wf(),
        ensures
            r == self.exit_valid(x as int, y as int),
    {
        if x < 1 || x > self.width - 1 || y < 1 || y > self.height - 1 {
            return false;
        }
        let idx = self.xy_idxi32(x, y);
        !self.blocked[idx]
    }

    /// The neighbour of `(x, y)` at offset `(dx, dy)` with the cost of the
    /// step, if a step there is possible.
    pub open spec fn exit_toward(&self, x: int, y: int, dx: int, dy: int) -> Seq<(usize, u32)> {
        if self.exit_valid(x + dx, y + dy) {
            seq![
                (
                    tile_index(x + dx, y + dy) as usize,
                    if dx != 0 && dy != 0 {
                        DIAGONAL_COST
                    } else {
                        STRAIGHT_COST
                    },
                ),
            ]
        } else {
            Seq::empty()
        }
    }

    /// The tiles that can be stepped onto from tile `idx`, each with the
    /// cost of the step in hundredths: west, east, north, south, then the
    /// four diagonals.
    pub open spec fn available_exits(&self, idx: int) -> Seq<(usize, u32)> {
        let x = idx % (WIDTH as int);
        let y = idx / (WIDTH as int);
        self.exit_toward(x, y, -1, 0) + self.exit_toward(x, y, 1, 0) + self.exit_toward(
            x,
            y,
            0,
            -1,
        ) + self.exit_toward(x, y, 0, 1) + self.exit_toward(x, y, -1, -1) + self.exit_toward(
            x,
            y,
            1,
            -1,
        ) + self.exit_toward(x, y, -1, 1) + self.exit_toward(x, y, 1, 1)
    }

    fn push_exit(&self, exits: &mut Vec<(usize, u32)>, x: i32, y: i32, dx: i32, dy: i32)
        requires
            self.wf(),
            on_map(x as int, y as int),
            -1 <= dx <= 1,
            -1 <= dy <= 1,
        ensures
            final(exits)@ == old(exits)@ + self.exit_toward(x as int, y as int, dx as int, dy as int),
    {
        if self.is_exit_valid(x + dx, y + dy) {
            let idx = self.xy_idxi32(x + dx, y + dy);
            let cost = if dx != 0 && dy != 0 {
                DIAGONAL_COST
            } else {
                STRAIGHT_COST
            };
            exits.push((idx, cost));
            assert(exits@ =~= old(exits)@ + self.exit_toward(
                x as int,
                y as int,
                dx as int,
                dy as int,
            ));
        } else {
            assert(exits@ =~= old(exits)@ + self.exit_toward(
                x as int,
                y as int,
                dx as int,
                dy as int,
            ));
        }
    }

    /// The tiles that can be stepped onto from tile `idx`, with step costs.
    pub fn get_available_exits(&self, idx: usize) -> (exits: Vec<(usize, u32)>)
        requires
            self.wf(),
            idx < TILE_COUNT,
        ensures
            exits@ == self.available_exits(idx as int),
    {
        let (ux, uy) = TileMap::idx_to_xy(idx);
        let x = ux as i32;
        let y = uy as i32;
        let mut exits: Vec<(usize, u32)> = Vec::new();
        assert(exits@ =~= Seq::empty());
        self.push_exit(&mut exits, x, y, -1, 0);
        self.push_exit(&mut exits, x, y, 1, 0);
        self.push_exit(&mut exits, x, y, 0, -1);
        self.push_exit(&mut exits, x, y, 0, 1);
        self.push_exit(&mut exits, x, y, -1, -1);
        self.push_exit(&mut exits, x, y, 1, -1);
        self.push_exit(&mut exits, x, y, -1, 1);
        self.push_exit(&mut exits, x, y, 1, 1);
        assert(exits@ =~= self.available_exits(idx as int));
        exits
    }

    /// Squared Euclidean distance between the tiles with indices `idx1`
    /// and `idx2`.
    pub open spec fn pathing_distance_squared(idx1: int, idx2: int) -> int {
        let w = WIDTH as int;
        (idx1 % w - idx2 % w) * (idx1 % w - idx2 % w) + (idx1 / w - idx2 / w) * (idx1 / w - idx2
            / w)
    }

    /// Squared Euclidean distance between two tiles given by index.
    pub fn get_pathing_distance(&self, idx1: usize, idx2: usize) -> (d: u64)
        requires
            idx1 < TILE_COUNT,
            idx2 < TILE_COUNT,
        ensures
            d == TileMap::pathing_distance_squared(idx1 as int, idx2 as int),
    {
        let (x1, y1) = TileMap::idx_to_xy(idx1);
        let (x2, y2) = TileMap::idx_to_xy(idx2);
        let dx: i64 = x1 as i64 - x2 as i64;
        let dy: i64 = y1 as i64 - y2 as i64;
        proof {
            crate::geometry::lemma_square_bound(dx as int, 66);
            crate::geometry::lemma_square_bound(dy as int, 43);
        }
        (dx * dx + dy * dy) as u64
    }
}


/// The step from tile `from` to tile `to` goes to one of the eight
/// neighbours.
pub open spec fn is_neighbour(from: int, to: int) -> bool {
    let w = WIDTH as int;
    from != to && -1 <= to % w - from % w <= 1 && -1 <= to / w - from / w <= 1
}

/// The cost of the step from tile `from` to its neighbour `to`: more for
/// a diagonal step than for a straight one.
pub open spec fn step_cost(from: int, to: int) -> u32 {
    let w = WIDTH as int;
    if to % w != from % w && to / w != from / w {
        DIAGONAL_COST
    } else {
        STRAIGHT_COST
    }
}

/// The exit `e` of tile `idx` leads to a neighbour on the map that is not
/// blocked, at the cost of the step there.
pub open spec fn is_free_neighbour(map: &TileMap, idx: int, e: (usize, u32)) -> bool {
    &&& e.0 < TILE_COUNT
    &&& !map.blocked[e.0 as int]
    &&& is_neighbour(idx, e.0 as int)
    &&& e.1 == step_cost(idx, e.0 as int)
}

proof fn lemma_exit_toward(map: &TileMap, x: int, y: int, dx: int, dy: int, e: (usize, u32))
    requires
        map.wf(),
        on_map(x, y),
        -1 <= dx <= 1,
        -1 <= dy <= 1,
        dx != 0 || dy != 0,
        map.exit_toward(x, y, dx, dy).contains(e),
    ensures
        is_free_neighbour(map, tile_index(x, y), e),
{
    lemma_index_round_trip(x, y);
    lemma_index_round_trip(x + dx, y + dy);
    assert(map.exit_toward(x, y, dx, dy)[0] == e);
}

proof fn lemma_concat_contains<A>(a: Seq<A>, b: Seq<A>, e: A)
    requires
        (a + b).contains(e),
    ensures
        a.contains(e) || b.contains(e),
{
    let k = choose|k: int| 0 <= k < (a + b).len() && (a + b)[k] == e;
    if k < a.len() {
        assert(a[k] == e);
    } else {
        assert(b[k - a.len()] == e);
    }
}

/// Every exit leads to a neighbour on the map that is not blocked, at
/// the cost of the step there: one for a straight step, and nearly half
/// as much again for a diagonal one.
pub proof fn lemma_exits_are_free_neighbours(map: &TileMap, idx: int, e: (usize, u32))
    requires
        map.wf(),
        0 <= idx < TILE_COUNT,
        map.available_exits(idx).contains(e),
    ensures
        is_free_neighbour(map, idx, e),
{
    let x = idx % (WIDTH as int);
    let y = idx / (WIDTH as int);
    lemma_index_names_tile(idx);
    let w = map.exit_toward(x, y, -1, 0);
    let ea = map.exit_toward(x, y, 1, 0);
    let n = map.exit_toward(x, y, 0, -1);
    let so = map.exit_toward(x, y, 0, 1);
    let nw = map.exit_toward(x, y, -1, -1);
    let ne = map.exit_toward(x, y, 1, -1);
    let sw = map.exit_toward(x, y, -1, 1);
    let se = map.exit_toward(x, y, 1, 1);
    lemma_concat_contains(w + ea + n + so + nw + ne + sw, se, e);
    if se.contains(e) {
        lemma_exit_toward(map, x, y, 1, 1, e);
    } else {
        lemma_concat_contains(w + ea + n + so + nw + ne, sw, e);
        if sw.contains(e) {
            lemma_exit_toward(map, x, y, -1, 1, e);
        } else {
            lemma_concat_contains(w + ea + n + so + nw, ne, e);
            if ne.contains(e) {
                lemma_exit_toward(map, x, y, 1, -1, e);
            } else {
                lemma_concat_contains(w + ea + n + so, nw, e);
                if nw.contains(e) {
                    lemma_exit_toward(map, x, y, -1, -1, e);
                } else {
                    lemma_concat_contains(w + ea + n, so, e);
                    if so.contains(e) {
                        lemma_exit_toward(map, x, y, 0, 1, e);
                    } else {
                        lemma_concat_contains(w + ea, n, e);
                        if n.contains(e) {
                            lemma_exit_toward(map, x, y, 0, -1, e);
                        } else {
                            lemma_concat_contains(w, ea, e);
                            if ea.contains(e) {
                                lemma_exit_toward(map, x, y, 1, 0, e);
                            } else {
                                lemma_exit_toward(map, x, y, -1, 0, e);
                            }
                        }
                    }
                }
            }
        }
    }
}

impl TileMap {
    /// A level of solid rock: every tile a wall, nothing seen, nothing
    /// blocked, nobody anywhere.
    pub open spec fn is_blank(&self, depth: i32) -> bool {
        &&& self.wf()
        &&& self.depth == depth
        &&& self.rooms@ == Seq::<Rect>::empty()
        &&& self.bloodstains@ == Set::<usize>::empty()
        &&& forall|i: int| 0 <= i < TILE_COUNT ==> self.tiles[i] == TileType::Wall
        &&& forall|i: int| 0 <= i < TILE_COUNT ==> !self.revealed_tiles[i]
        &&& forall|i: int| 0 <= i < TILE_COUNT ==> !self.visible_tiles[i]
        &&& forall|i: int| 0 <= i < TILE_COUNT ==> !self.blocked[i]
        &&& forall|i: int| 0 <= i < TILE_COUNT ==> self.tile_content[i]@ == Seq::<Entity>::empty()
    }

    /// Makes a level of solid rock at `depth`.
    pub fn new_empty_map(depth: i32) -> (map: TileMap)
        ensures
            map.is_blank(depth),
    {
        let mut tiles: Vec<TileType> = Vec::new();
        let mut revealed_tiles: Vec<bool> = Vec::new();
        let mut visible_tiles: Vec<bool> = Vec::new();
        let mut blocked: Vec<bool> = Vec::new();
        let mut tile_content: Vec<Vec<Entity>> = Vec::new();
        let mut i: usize = 0;
        while i < TILE_COUNT
            invariant
                0 <= i <= TILE_COUNT,
                tiles.len() == i,
                revealed_tiles.len() == i,
                visible_tiles.len() == i,
                blocked.len() == i,
                tile_content.len() == i,
                forall|k: int| 0 <= k < i ==> tiles[k] == TileType::Wall,
                forall|k: int| 0 <= k < i ==> !revealed_tiles[k],
                forall|k: int| 0 <= k < i ==> !visible_tiles[k],
                forall|k: int| 0 <= k < i ==> !blocked[k],
                forall|k: int| 0 <= k < i ==> tile_content[k]@ == Seq::<Entity>::empty(),
            decreases TILE_COUNT - i,
        {
            tiles.push(TileType::Wall);
            revealed_tiles.push(false);
            visible_tiles.push(false);
            blocked.push(false);
            tile_content.push(Vec::new());
            i = i + 1;
        }
        TileMap {
            tiles,
            rooms: Vec::new(),
            revealed_tiles,
            visible_tiles,
            blocked,
            tile_content,
            width: 66,
            height: 43,
            bloodstains: HashSet::new(),
            depth,
        }
    }
}

} // verus!
