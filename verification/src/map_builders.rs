//! Carving a level: rooms at random places, joined by corridors.

use crate::geometry::Position;
use crate::map::{
    in_interior, lemma_index_names_tile, lemma_index_round_trip, on_map, tile_index, TileMap,
    TileType, HEIGHT, TILE_COUNT, WIDTH,
};
use crate::rect::Rect;
use crate::store::Entity;
use vstd::prelude::*;

verus! {

/// Most rooms that a level gets.
pub const MAX_ROOMS: i32 = 30;

/// Smallest width and height of a room.
pub const MIN_SIZE: i32 = 6;

/// One more than the largest width and height of a room.
pub const MAX_SIZE: i32 = 10;

/// The console library's random number generator.  It is only handed
/// on, never looked into.
#[verifier::external_type_specification]
#[verifier::external_body]
pub struct ExRandomNumberGenerator(rltk::RandomNumberGenerator);

/// `rltk::RandomNumberGenerator::new` seeds a generator from the system's
/// entropy.  Nothing is claimed of it.
pub assume_specification[ rltk::RandomNumberGenerator::new ]() -> (rng:
    rltk::RandomNumberGenerator)
;

/// `rltk::RandomNumberGenerator::roll_dice` throws `n` dice with faces
/// `1..=die_type` and adds them up.  Whatever falls, the sum lies between
/// `n` and `n * die_type`.  Dice without faces and sums beyond `i32` are
/// left out.
pub assume_specification[ rltk::RandomNumberGenerator::roll_dice ](
    rng: &mut rltk::RandomNumberGenerator,
    n: i32,
    die_type: i32,
) -> (sum: i32)
    requires
        0 <= n,
        1 <= die_type < i32::MAX,
        n * die_type <= i32::MAX,
    ensures
        n <= sum <= n * die_type,
;

/// Calls `rltk::RandomNumberGenerator::range`, which draws from the
/// half-open range `min..max`.  Whatever is drawn lies in it.  An empty
/// range is left out.
#[verifier::external_body]
fn random_in(rng: &mut rltk::RandomNumberGenerator, min: i32, max: i32) -> (drawn: i32)
    requires
        min < max,
    ensures
        min <= drawn < max,
{
    rng.range(min, max)
}

/// The column of the tile with index `i`.
pub open spec fn column_of(i: int) -> int {
    i % (WIDTH as int)
}

/// The row of the tile with index `i`.
pub open spec fn row_of(i: int) -> int {
    i / (WIDTH as int)
}

/// The room lies inside the outer ring of the level and is at least two
/// tiles wide and high.
pub open spec fn room_fits(room: Rect) -> bool {
    0 <= room.x1 && room.x1 + 2 <= room.x2 <= WIDTH - 2 && 0 <= room.y1 && room.y1 + 2 <= room.y2
        <= HEIGHT - 2
}

/// The tile with index `i` lies in the room: right of its first column
/// and below its first row.
pub open spec fn in_room(room: Rect, i: int) -> bool {
    room.x1 < column_of(i) <= room.x2 && room.y1 < row_of(i) <= room.y2
}

/// The tile with index `i` lies on the corridor along row `y` between the
/// columns `x1` and `x2`.  The tile with index zero is on no corridor.
pub open spec fn in_horizontal_tunnel(x1: int, x2: int, y: int, i: int) -> bool {
    i > 0 && row_of(i) == y && ((x1 <= column_of(i) <= x2) || (x2 <= column_of(i) <= x1))
}

/// The tile with index `i` lies on the corridor along column `x` between
/// the rows `y1` and `y2`.  The tile with index zero is on no corridor.
pub open spec fn in_vertical_tunnel(y1: int, y2: int, x: int, i: int) -> bool {
    i > 0 && column_of(i) == x && ((y1 <= row_of(i) <= y2) || (y2 <= row_of(i) <= y1))
}

/// `after` is `before` with floor on exactly the tiles that `dug` names.
pub open spec fn dug_out(before: &TileMap, after: &TileMap, dug: spec_fn(int) -> bool) -> bool {
    &&& *after == (TileMap { tiles: after.tiles, ..*before })
    &&& after.tiles.len() == before.tiles.len()
    &&& forall|i: int|
        0 <= i < before.tiles.len() ==> #[trigger] after.tiles[i] == if dug(i) {
            TileType::Floor
        } else {
            before.tiles[i]
        }
}

impl TileMap {
    /// Turns the tiles of `room` into floor.
    pub fn apply_room_to_map(&mut self, room: &Rect)
        requires
            old(self).wf(),
            room_fits(*room),
        ensures
            dug_out(old(self), final(self), |i: int| in_room(*room, i)),
    {
        let mut y: i32 = room.y1 + 1;
        while y <= room.y2
            invariant
                old(self).wf(),
                self.wf(),
                room_fits(*room),
                room.y1 + 1 <= y <= room.y2 + 1,
                dug_out(
                    old(self),
                    self,
                    |i: int| in_room(*room, i) && row_of(i) < y,
                ),
            decreases room.y2 + 1 - y,
        {
            let mut x: i32 = room.x1 + 1;
            while x <= room.x2
                invariant
                    old(self).wf(),
                    self.wf(),
                    room_fits(*room),
                    room.y1 + 1 <= y <= room.y2,
                    room.x1 + 1 <= x <= room.x2 + 1,
                    dug_out(
                        old(self),
                        self,
                        |i: int|
                            in_room(*room, i) && (row_of(i) < y || (row_of(i) == y && column_of(i)
                                < x)),
                    ),
                decreases room.x2 + 1 - x,
            {
                let idx = self.xy_idxi32(x, y);
                proof {
                    lemma_index_round_trip(x as int, y as int);
                    assert forall|i: int|
                        0 <= i < TILE_COUNT && #[trigger] column_of(i) == x && row_of(i)
                            == y implies i == idx by {
                        lemma_index_names_tile(i);
                    }
                }
                self.tiles.set(idx, TileType::Floor);
                x = x + 1;
            }
            y = y + 1;
        }
    }

    /// Digs a corridor along row `y` between the columns `x1` and `x2`.
    pub fn apply_horizontal_tunnel(&mut self, x1: i32, x2: i32, y: i32)
        requires
            old(self).wf(),
            on_map(x1 as int, y as int),
            on_map(x2 as int, y as int),
        ensures
            dug_out(
                old(self),
                final(self),
                |i: int| in_horizontal_tunnel(x1 as int, x2 as int, y as int, i),
            ),
    {
        let lo = if x1 < x2 {
            x1
        } else {
            x2
        };
        let hi = if x1 < x2 {
            x2
        } else {
            x1
        };
        let mut x: i32 = lo;
        while x <= hi
            invariant
                old(self).wf(),
                self.wf(),
                0 <= lo <= x <= hi + 1,
                hi < WIDTH,
                0 <= y < HEIGHT,
                lo == (if x1 < x2 {
                    x1
                } else {
                    x2
                }),
                hi == (if x1 < x2 {
                    x2
                } else {
                    x1
                }),
                dug_out(
                    old(self),
                    self,
                    |i: int|
                        in_horizontal_tunnel(x1 as int, x2 as int, y as int, i) && column_of(i)
                            < x,
                ),
            decreases hi + 1 - x,
        {
            let idx = self.xy_idxi32(x, y);
            proof {
                lemma_index_round_trip(x as int, y as int);
                assert forall|i: int|
                    0 <= i < TILE_COUNT && #[trigger] column_of(i) == x && row_of(i)
                        == y implies i == idx by {
                    lemma_index_names_tile(i);
                }
            }
            if idx > 0 && idx < 2838 {
                self.tiles.set(idx, TileType::Floor);
            }
            x = x + 1;
        }
    }

    /// Digs a corridor along column `x` between the rows `y1` and `y2`.
    pub fn apply_vertical_tunnel(&mut self, y1: i32, y2: i32, x: i32)
        requires
            old(self).wf(),
            on_map(x as int, y1 as int),
            on_map(x as int, y2 as int),
        ensures
            dug_out(
                old(self),
                final(self),
                |i: int| in_vertical_tunnel(y1 as int, y2 as int, x as int, i),
            ),
    {
        let lo = if y1 < y2 {
            y1
        } else {
            y2
        };
        let hi = if y1 < y2 {
            y2
        } else {
            y1
        };
        let mut y: i32 = lo;
        while y <= hi
            invariant
                old(self).wf(),
                self.wf(),
                0 <= lo <= y <= hi + 1,
                hi < HEIGHT,
                0 <= x < WIDTH,
                lo == (if y1 < y2 {
                    y1
                } else {
                    y2
                }),
                hi == (if y1 < y2 {
                    y2
                } else {
                    y1
                }),
                dug_out(
                    old(self),
                    self,
                    |i: int|
                        in_vertical_tunnel(y1 as int, y2 as int, x as int, i) && row_of(i) < y,
                ),
            decreases hi + 1 - y,
        {
            let idx = self.xy_idxi32(x, y);
            proof {
                lemma_index_round_trip(x as int, y as int);
                assert forall|i: int|
                    0 <= i < TILE_COUNT && #[trigger] column_of(i) == x && row_of(i)
                        == y implies i == idx by {
                    lemma_index_names_tile(i);
                }
            }
            if idx > 0 && idx < 2838 {
                self.tiles.set(idx, TileType::Floor);
            }
            y = y + 1;
        }
    }
}


/// `room` shares no tile with any of `rooms`.
pub open spec fn fits_among(room: Rect, rooms: Seq<Rect>) -> bool {
    forall|k: int| 0 <= k < rooms.len() ==> !room.overlaps(#[trigger] rooms[k])
}

/// Placing `room` after `rooms` turns the tile with index `i` into floor:
/// the tile lies in the room, or on one of the two corridors that join
/// the middle of the room to the middle of the last room before it.  The
/// corridor that leaves the older room runs along its row when
/// `horizontal_first` is set and along its column otherwise.
pub open spec fn carved_by(rooms: Seq<Rect>, room: Rect, horizontal_first: bool, i: int) -> bool {
    in_room(room, i) || (rooms.len() > 0 && {
        let new_x = room.middle().0;
        let new_y = room.middle().1;
        let prev_x = rooms.last().middle().0;
        let prev_y = rooms.last().middle().1;
        if horizontal_first {
            in_horizontal_tunnel(prev_x, new_x, prev_y, i) || in_vertical_tunnel(
                prev_y,
                new_y,
                new_x,
                i,
            )
        } else {
            in_vertical_tunnel(prev_y, new_y, prev_x, i) || in_horizontal_tunnel(
                prev_x,
                new_x,
                new_y,
                i,
            )
        }
    })
}

/// Every room of `rooms` fits on the level.
pub open spec fn rooms_fit(rooms: Seq<Rect>) -> bool {
    forall|k: int| 0 <= k < rooms.len() ==> room_fits(#[trigger] rooms[k])
}

/// Whether every room of `rooms` fits on the level.
pub fn all_rooms_fit(rooms: &Vec<Rect>) -> (ok: bool)
    ensures
        ok == rooms_fit(rooms@),
{
    let mut k: usize = 0;
    while k < rooms.len()
        invariant
            0 <= k <= rooms.len(),
            forall|j: int| 0 <= j < k ==> room_fits(#[trigger] rooms[j]),
        decreases rooms.len() - k,
    {
        let room = &rooms[k];
        let fits = 0 <= room.x1 && room.x1 as i64 + 2 <= room.x2 as i64 && room.x2 <= 64 && 0
            <= room.y1 && room.y1 as i64 + 2 <= room.y2 as i64 && room.y2 <= 41;
        if !fits {
            assert(!room_fits(rooms@[k as int]));
            return false;
        }
        k = k + 1;
    }
    true
}

/// What is carved for a fitting room lies inside the outer ring.
pub proof fn lemma_carving_stays_inside(
    rooms: Seq<Rect>,
    room: Rect,
    horizontal_first: bool,
    i: int,
)
    requires
        rooms_fit(rooms),
        room_fits(room),
        0 <= i < TILE_COUNT,
        carved_by(rooms, room, horizontal_first, i),
    ensures
        in_interior(column_of(i), row_of(i)),
{
    if rooms.len() > 0 {
        assert(room_fits(rooms.last()));
    }
}

impl TileMap {
    /// Tries to place `new_room`: a room that shares a tile with an older
    /// one is not placed; any other is dug out, joined to the last room by
    /// two corridors and added to the rooms.
    pub fn place_room(&mut self, new_room: Rect, horizontal_first: bool) -> (placed: bool)
        requires
            old(self).wf(),
            rooms_fit(old(self).rooms@),
            room_fits(new_room),
        ensures
            placed == fits_among(new_room, old(self).rooms@),
            !placed ==> *final(self) == *old(self),
            placed ==> {
                &&& *final(self) == (TileMap {
                    tiles: final(self).tiles,
                    rooms: final(self).rooms,
                    ..*old(self)
                })
                &&& final(self).rooms@ == old(self).rooms@.push(new_room)
                &&& final(self).tiles.len() == old(self).tiles.len()
                &&& forall|i: int|
                    0 <= i < TILE_COUNT ==> #[trigger] final(self).tiles[i] == if carved_by(
                        old(self).rooms@,
                        new_room,
                        horizontal_first,
                        i,
                    ) {
                        TileType::Floor
                    } else {
                        old(self).tiles[i]
                    }
            },
    {
        let mut ok = true;
        let mut k: usize = 0;
        while k < self.rooms.len()
            invariant
                0 <= k <= self.rooms.len(),
                *self == *old(self),
                ok == fits_among(new_room, self.rooms@.take(k as int)),
            decreases self.rooms.len() - k,
        {
            let ghost seen = self.rooms@.take(k as int);
            let ghost more = self.rooms@.take(k as int + 1);
            let hit = new_room.intersect(&self.rooms[k]);
            proof {
                assert(more[k as int] == self.rooms[k as int]);
                if fits_among(new_room, more) {
                    assert forall|j: int| 0 <= j < seen.len() implies !new_room.overlaps(
                        #[trigger] seen[j],
                    ) by {
                        assert(more[j] == seen[j]);
                    }
                }
                if fits_among(new_room, seen) && !hit {
                    assert forall|j: int| 0 <= j < more.len() implies !new_room.overlaps(
                        #[trigger] more[j],
                    ) by {
                        if j < k {
                            assert(more[j] == seen[j]);
                        }
                    }
                }
            }
            if hit {
                ok = false;
            }
            k = k + 1;
        }
        assert(self.rooms@.take(self.rooms.len() as int) =~= self.rooms@);
        if ok {
            self.apply_room_to_map(&new_room);
            if !self.rooms.is_empty() {
                let (new_x, new_y) = new_room.center();
                let last = self.rooms.len() - 1;
                assert(room_fits(self.rooms[last as int]));
                assert(self.rooms@.last() == self.rooms[last as int]);
                let (prev_x, prev_y) = self.rooms[last].center();
                if horizontal_first {
                    self.apply_horizontal_tunnel(prev_x, new_x, prev_y);
                    self.apply_vertical_tunnel(prev_y, new_y, new_x);
                } else {
                    self.apply_vertical_tunnel(prev_y, new_y, prev_x);
                    self.apply_horizontal_tunnel(prev_x, new_x, new_y);
                }
            }
            self.rooms.push(new_room);
        }
        ok
    }

    /// The level is carved: between one and thirty rooms that fit and
    /// share no tile, floor in every room, rock all around the outer ring,
    /// one stairway down in the middle of the last room, and nothing seen,
    /// blocked or indexed yet.
    pub open spec fn is_carved(&self, depth: i32) -> bool {
        &&& self.wf()
        &&& self.depth == depth
        &&& 1 <= self.rooms.len() <= MAX_ROOMS
        &&& rooms_fit(self.rooms@)
        &&& forall|a: int, b: int|
            0 <= a < b < self.rooms.len() ==> !(#[trigger] self.rooms[b]).overlaps(
                #[trigger] self.rooms[a],
            )
        &&& forall|i: int|
            0 <= i < TILE_COUNT && !in_interior(column_of(i), row_of(i))
                ==> #[trigger] self.tiles[i] == TileType::Wall
        &&& forall|k: int, i: int|
            0 <= k < self.rooms.len() && 0 <= i < TILE_COUNT && in_room(
                #[trigger] self.rooms[k],
                i,
            ) ==> #[trigger] self.tiles[i] != TileType::Wall
        &&& self.stairs_index() < TILE_COUNT
        &&& forall|i: int|
            0 <= i < TILE_COUNT ==> (#[trigger] self.tiles[i] == TileType::DownStairs <==> i
                == self.stairs_index())
        &&& self.unseen()
    }

    /// Index of the middle tile of the last room.
    pub open spec fn stairs_index(&self) -> int {
        tile_index(self.rooms@.last().middle().0, self.rooms@.last().middle().1)
    }

    /// Nothing is seen, blocked, stained or indexed.
    pub open spec fn unseen(&self) -> bool {
        &&& self.bloodstains@ == Set::<usize>::empty()
        &&& forall|i: int| 0 <= i < TILE_COUNT ==> !self.revealed_tiles[i]
        &&& forall|i: int| 0 <= i < TILE_COUNT ==> !self.visible_tiles[i]
        &&& forall|i: int| 0 <= i < TILE_COUNT ==> !self.blocked[i]
        &&& forall|i: int| 0 <= i < TILE_COUNT ==> self.tile_content[i]@ == Seq::<Entity>::empty()
    }

    /// Carves a level at `depth`: thirty times a room of random size is
    /// tried at a random place, and the stairway down goes in the last room
    /// that found its place.
    pub fn new_map_rooms_and_corridors(depth: i32) -> (map: TileMap)
        ensures
            map.is_carved(depth),
    {
        let mut map = TileMap::new_empty_map(depth);
        let mut rng = rltk::RandomNumberGenerator::new();
        let mut round: i32 = 0;
        while round < MAX_ROOMS
            invariant
                0 <= round <= MAX_ROOMS,
                map.wf(),
                map.depth == depth,
                map.unseen(),
                map.rooms.len() <= round,
                round > 0 ==> map.rooms.len() >= 1,
                rooms_fit(map.rooms@),
                forall|a: int, b: int|
                    0 <= a < b < map.rooms.len() ==> !(#[trigger] map.rooms[b]).overlaps(
                        #[trigger] map.rooms[a],
                    ),
                forall|i: int|
                    0 <= i < TILE_COUNT && !in_interior(column_of(i), row_of(i))
                        ==> #[trigger] map.tiles[i] == TileType::Wall,
                forall|i: int|
                    0 <= i < TILE_COUNT ==> #[trigger] map.tiles[i] != TileType::DownStairs,
                forall|k: int, i: int|
                    0 <= k < map.rooms.len() && 0 <= i < TILE_COUNT && in_room(
                        #[trigger] map.rooms[k],
                        i,
                    ) ==> #[trigger] map.tiles[i] == TileType::Floor,
            decreases MAX_ROOMS - round,
        {
            let w = random_in(&mut rng, MIN_SIZE, MAX_SIZE);
            let h = random_in(&mut rng, MIN_SIZE, MAX_SIZE);
            let x = rng.roll_dice(1, map.width - w - 1) - 1;
            let y = rng.roll_dice(1, map.height - h - 1) - 1;
            let new_room = Rect::new(x, y, w, h);
            let horizontal_first = random_in(&mut rng, 0, 2) == 1;
            let ghost before = map;
            let placed = map.place_room(new_room, horizontal_first);
            proof {
                if placed {
                    assert forall|i: int| 0 <= i < TILE_COUNT && carved_by(
                        before.rooms@,
                        new_room,
                        horizontal_first,
                        i,
                    ) implies in_interior(column_of(i), row_of(i)) by {
                        lemma_carving_stays_inside(before.rooms@, new_room, horizontal_first, i);
                    }
                    assert forall|k: int| 0 <= k < map.rooms.len() implies room_fits(
                        #[trigger] map.rooms[k],
                    ) by {
                        if k < before.rooms.len() {
                            assert(map.rooms[k] == before.rooms[k]);
                        }
                    }
                    assert forall|a: int, b: int| 0 <= a < b < map.rooms.len() implies !(
                    #[trigger] map.rooms[b]).overlaps(#[trigger] map.rooms[a]) by {
                        assert(map.rooms[a] == before.rooms[a]);
                        if b < before.rooms.len() {
                            assert(map.rooms[b] == before.rooms[b]);
                        }
                    }
                    assert forall|k: int, i: int|
                        0 <= k < map.rooms.len() && 0 <= i < TILE_COUNT && in_room(
                            #[trigger] map.rooms[k],
                            i,
                        ) implies #[trigger] map.tiles[i] == TileType::Floor by {
                        if k < before.rooms.len() {
                            assert(map.rooms[k] == before.rooms[k]);
                        }
                    }
                }
            }
            round = round + 1;
        }
        let last = map.rooms.len() - 1;
        assert(room_fits(map.rooms[last as int]));
        assert(map.rooms@.last() == map.rooms[last as int]);
        let stairs_position = map.rooms[last].center();
        let stairs_idx = map.xy_idxi32(stairs_position.0, stairs_position.1);
        proof {
            lemma_index_round_trip(stairs_position.0 as int, stairs_position.1 as int);
            assert(column_of(stairs_idx as int) == stairs_position.0);
            assert(row_of(stairs_idx as int) == stairs_position.1);
            assert(in_room(map.rooms[last as int], stairs_idx as int));
        }
        map.tiles.set(stairs_idx, TileType::DownStairs);
        map
    }

    /// Makes a level of solid rock at `depth`, after throwing the dice
    /// for four hundred places at which to put a wall.
    pub fn new_rand_map(&mut self, depth: i32) -> (map: TileMap)
        ensures
            map.is_blank(depth),
            *final(self) == *old(self),
    {
        let mut map = TileMap::new_empty_map(depth);
        let mut rng = rltk::RandomNumberGenerator::new();
        let mut round: i32 = 0;
        while round < 400
            invariant
                0 <= round <= 400,
                map.is_blank(depth),
            decreases 400 - round,
        {
            let x = rng.roll_dice(1, 79);
            let y = rng.roll_dice(1, 49);
            if x < 66 && y < 43 {
                let idx = map.xy_idxi32(x, y);
                if idx != 1690 {
                    map.tiles.set(idx, TileType::Wall);
                }
            }
            round = round + 1;
        }
        map
    }
}

/// Carves a level at `new_depth` and says where the player starts: in the
/// middle of the first room.
pub fn build_random_map(new_depth: i32) -> (level: (TileMap, Position))
    ensures
        level.0.is_carved(new_depth),
        (level.1.x as int, level.1.y as int) == level.0.rooms[0].middle(),
        on_map(level.1.x as int, level.1.y as int),
{
    let map = TileMap::new_map_rooms_and_corridors(new_depth);
    assert(room_fits(map.rooms[0]));
    let (x, y) = map.rooms[0].center();
    (map, Position { x, y })
}

} // verus!
