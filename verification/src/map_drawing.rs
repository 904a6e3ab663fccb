//! What the console shows of the level: one glyph for each revealed tile.

use crate::components::Rgb;
use crate::map::{on_map, tile_index, TileMap, TileType, TILE_COUNT, WIDTH};
use crate::store::Entity;
use crate::world::World;
use vstd::prelude::*;

verus! {

/// The code page 437 glyph of a character, as the console library maps it.
pub uninterp spec fn cp437(c: char) -> u16;

/// Calls `rltk::to_cp437`, a fixed table from characters to glyphs of
/// code page 437.  The contract names the table `cp437` and claims
/// nothing of its entries.
#[verifier::external_body]
pub(crate) fn to_cp437(c: char) -> (glyph: u16)
    ensures
        glyph == cp437(c),
{
    rltk::to_cp437(c)
}

/// The colour a tile is drawn in.
#[derive(Clone, Copy, PartialEq, Eq, Structural, Debug)]
pub enum TileInk {
    /// Floor: half grey.
    Grey,
    /// Wall: green.
    Green,
    /// Stairway: cyan.
    Cyan,
}

/// How one revealed tile is drawn.  A tile out of sight is drawn in grey
/// scale on black, whatever its ink and stains.
#[derive(Clone, Copy, PartialEq, Eq, Structural, Debug)]
pub struct TileLook {
    pub x: i32,
    pub y: i32,
    pub glyph: u16,
    pub ink: TileInk,
    pub bloodstained: bool,
    pub in_sight: bool,
}

/// The tile `(x, y)` is a wall that the player has seen.
pub open spec fn revealed_wall(map: &TileMap, x: int, y: int) -> bool {
    map.tiles[tile_index(x, y)] == TileType::Wall && map.revealed_tiles[tile_index(x, y)]
}

/// Which neighbours of `(x, y)` are revealed walls: 1 for north, 2 for
/// south, 4 for west and 8 for east, added up.
pub open spec fn wall_mask(map: &TileMap, x: int, y: int) -> int {
    (if revealed_wall(map, x, y - 1) {
        1int
    } else {
        0int
    }) + (if revealed_wall(map, x, y + 1) {
        2int
    } else {
        0int
    }) + (if revealed_wall(map, x - 1, y) {
        4int
    } else {
        0int
    }) + (if revealed_wall(map, x + 1, y) {
        8int
    } else {
        0int
    })
}

/// The box-drawing glyph for a wall with the neighbours of `mask`.
pub open spec fn glyph_of_mask(mask: int) -> u16 {
    if mask == 0 {
        9
    } else if mask == 1 || mask == 2 || mask == 3 {
        186
    } else if mask == 4 || mask == 8 || mask == 12 {
        205
    } else if mask == 5 {
        188
    } else if mask == 6 {
        187
    } else if mask == 7 {
        185
    } else if mask == 9 {
        200
    } else if mask == 10 {
        201
    } else if mask == 11 {
        204
    } else if mask == 13 {
        202
    } else if mask == 14 {
        203
    } else if mask == 15 {
        206
    } else {
        35
    }
}

/// The glyph of the wall at `(x, y)`: a hash sign on the outer ring, and
/// inside it the box-drawing glyph that joins the revealed walls around.
pub open spec fn wall_glyph_of(map: &TileMap, x: int, y: int) -> u16 {
    if x < 1 || x > map.width - 2 || y < 1 || y > map.height - 2 {
        35
    } else {
        glyph_of_mask(wall_mask(map, x, y))
    }
}

/// Whether the tile `(x, y)` is a wall that the player has seen.
pub fn is_revealed_and_wall(map: &TileMap, x: i32, y: i32) -> (r: bool)
    requires
        map.wf(),
        on_map(x as int, y as int),
    ensures
        r == revealed_wall(map, x as int, y as int),
{
    let idx = map.xy_idxi32(x, y);
    map.tiles[idx] == TileType::Wall && map.revealed_tiles[idx]
}

/// The glyph of the wall at `(x, y)`.
pub fn wall_glyph(map: &TileMap, x: i32, y: i32) -> (glyph: u16)
    requires
        map.wf(),
    ensures
        glyph == wall_glyph_of(map, x as int, y as int),
{
    if x < 1 || x > map.width - 2 || y < 1 || y > map.height - 2 {
        return 35;
    }
    let mut mask: u8 = 0;
    if is_revealed_and_wall(map, x, y - 1) {
        mask += 1;
    }
    if is_revealed_and_wall(map, x, y + 1) {
        mask += 2;
    }
    if is_revealed_and_wall(map, x - 1, y) {
        mask += 4;
    }
    if is_revealed_and_wall(map, x + 1, y) {
        mask += 8;
    }
    match mask {
        0 => 9,
        1 => 186,
        2 => 186,
        3 => 186,
        4 => 205,
        5 => 188,
        6 => 187,
        7 => 185,
        8 => 205,
        9 => 200,
        10 => 201,
        11 => 204,
        12 => 205,
        13 => 202,
        14 => 203,
        15 => 206,
        _ => 35,
    }
}

/// How the tile with index `idx` is drawn.
pub open spec fn look_of(map: &TileMap, idx: int) -> TileLook {
    let x = idx % (WIDTH as int);
    let y = idx / (WIDTH as int);
    TileLook {
        x: x as i32,
        y: y as i32,
        glyph: match map.tiles[idx] {
            TileType::Floor => cp437('.'),
            TileType::Wall => wall_glyph_of(map, x, y),
            TileType::DownStairs => cp437('>'),
        },
        ink: match map.tiles[idx] {
            TileType::Floor => TileInk::Grey,
            TileType::Wall => TileInk::Green,
            TileType::DownStairs => TileInk::Cyan,
        },
        bloodstained: map.bloodstains@.contains(idx as usize),
        in_sight: map.visible_tiles[idx],
    }
}

/// The looks of the revealed tiles among the first `n`, in index order.
pub open spec fn looks_of(map: &TileMap, n: nat) -> Seq<TileLook>
    decreases n,
{
    if n == 0 {
        Seq::empty()
    } else {
        let rest = looks_of(map, (n - 1) as nat);
        if map.revealed_tiles[n - 1] {
            rest.push(look_of(map, n - 1))
        } else {
            rest
        }
    }
}

/// Lists how each revealed tile of the level is drawn, row by row.
pub fn draw_map(ecs: &World) -> (looks: Vec<TileLook>)
    requires
        ecs.map.wf(),
    ensures
        looks@ == looks_of(&ecs.map, TILE_COUNT as nat),
{
    broadcast use vstd::std_specs::hash::group_hash_axioms;

    let map = &ecs.map;
    let mut looks: Vec<TileLook> = Vec::new();
    let floor_glyph = to_cp437('.');
    let stairs_glyph = to_cp437('>');
    let mut idx: usize = 0;
    while idx < TILE_COUNT
        invariant
            0 <= idx <= TILE_COUNT,
            map.wf(),
            floor_glyph == cp437('.'),
            stairs_glyph == cp437('>'),
            looks@ == looks_of(map, idx as nat),
        decreases TILE_COUNT - idx,
    {
        if map.revealed_tiles[idx] {
            let (ux, uy) = TileMap::idx_to_xy(idx);
            let x = ux as i32;
            let y = uy as i32;
            let glyph;
            let ink;
            match map.tiles[idx] {
                TileType::Floor => {
                    glyph = floor_glyph;
                    ink = TileInk::Grey;
                },
                TileType::Wall => {
                    glyph = wall_glyph(map, x, y);
                    ink = TileInk::Green;
                },
                TileType::DownStairs => {
                    glyph = stairs_glyph;
                    ink = TileInk::Cyan;
                },
            }
            looks.push(
                TileLook {
                    x,
                    y,
                    glyph,
                    ink,
                    bloodstained: map.bloodstains.contains(&idx),
                    in_sight: map.visible_tiles[idx],
                },
            );
        }
        idx = idx + 1;
    }
    looks
}


/// How one entity is drawn.
#[derive(Clone, Copy, PartialEq, Eq, Structural, Debug)]
pub struct Drawn {
    pub entity: Entity,
    pub x: i32,
    pub y: i32,
    pub glyph: u16,
    pub fg: Rgb,
    pub bg: Rgb,
    pub render_order: i32,
}

/// `e` is drawn: it is one of the entities, it has a look, and it stands
/// on a tile that the player sees.
pub open spec fn is_drawn(world: &World, e: Entity) -> bool {
    &&& e.id < world.entities.alive.len()
    &&& world.positions@.dom().contains(e)
    &&& world.kinds.renderables@.dom().contains(e)
    &&& on_map(world.positions@[e].x as int, world.positions@[e].y as int)
    &&& world.map.visible_tiles[tile_index(
        world.positions@[e].x as int,
        world.positions@[e].y as int,
    )]
}

/// How `e` is drawn.
pub open spec fn drawing_of(world: &World, e: Entity) -> Drawn {
    Drawn {
        entity: e,
        x: world.positions@[e].x,
        y: world.positions@[e].y,
        glyph: world.kinds.renderables@[e].glyph,
        fg: world.kinds.renderables@[e].fg,
        bg: world.kinds.renderables@[e].bg,
        render_order: world.kinds.renderables@[e].render_order,
    }
}

/// `a` is drawn before `b`, and so below it: it has the larger render
/// order, or the same and the smaller identifier.
pub open spec fn drawn_before(a: Drawn, b: Drawn) -> bool {
    a.render_order > b.render_order || (a.render_order == b.render_order && a.entity.id
        < b.entity.id)
}

/// `list` is the drawing list of the first `bound` entities: each drawn
/// entity among them once, in drawing order.
pub open spec fn lists_drawn(list: Seq<Drawn>, world: &World, bound: nat) -> bool {
    &&& forall|k: int|
        0 <= k < list.len() ==> {
            &&& (#[trigger] list[k]).entity.id < bound
            &&& is_drawn(world, list[k].entity)
            &&& list[k] == drawing_of(world, list[k].entity)
        }
    &&& forall|e: Entity|
        e.id < bound && #[trigger] is_drawn(world, e) ==> exists|k: int|
            0 <= k < list.len() && (#[trigger] list[k]).entity == e
    &&& forall|a: int, b: int| 0 <= a < b < list.len() ==> drawn_before(list[a], list[b])
}

/// Lists the entities to draw, in the order in which to draw them: what
/// comes later is drawn on top.
pub fn draw_entities(ecs: &World) -> (list: Vec<Drawn>)
    requires
        ecs.map.wf(),
    ensures
        lists_drawn(list@, ecs, ecs.entities.alive.len() as nat),
{
    let bound = ecs.entities.bound();
    let mut list: Vec<Drawn> = Vec::new();
    let mut id: usize = 0;
    while id < bound
        invariant
            0 <= id <= bound == ecs.entities.alive.len(),
            ecs.map.wf(),
            lists_drawn(list@, ecs, id as nat),
        decreases bound - id,
    {
        let e = Entity { id };
        let mut found: Option<Drawn> = None;
        match (ecs.positions.get(e), ecs.kinds.renderables.get(e)) {
            (Some(pos), Some(render)) => {
                if ecs.map.in_bounds(pos.x, pos.y) {
                    let idx = ecs.map.xy_idxi32(pos.x, pos.y);
                    if ecs.map.visible_tiles[idx] {
                        found = Some(
                            Drawn {
                                entity: e,
                                x: pos.x,
                                y: pos.y,
                                glyph: render.glyph,
                                fg: render.fg,
                                bg: render.bg,
                                render_order: render.render_order,
                            },
                        );
                    }
                }
            },
            _ => {},
        }
        assert(found is Some <==> is_drawn(ecs, e));
        match found {
            Some(d) => {
                let mut j: usize = 0;
                while j < list.len() && list[j].render_order >= d.render_order
                    invariant
                        0 <= j <= list.len(),
                        forall|k: int| 0 <= k < j ==> list[k].render_order >= d.render_order,
                    decreases list.len() - j,
                {
                    j = j + 1;
                }
                let ghost before = list@;
                list.insert(j, d);
                proof {
                    assert forall|k: int| 0 <= k < list.len() implies {
                        &&& (#[trigger] list[k]).entity.id < id + 1
                        &&& is_drawn(ecs, list[k].entity)
                        &&& list[k] == drawing_of(ecs, list[k].entity)
                    } by {
                        if k < j {
                            assert(list[k] == before[k]);
                        } else if k > j {
                            assert(list[k] == before[k - 1]);
                        }
                    }
                    assert forall|o: Entity| o.id < id + 1 && #[trigger] is_drawn(
                        ecs,
                        o,
                    ) implies exists|k: int|
                        0 <= k < list.len() && (#[trigger] list[k]).entity == o by {
                        if o.id < id {
                            let k0 = choose|k: int|
                                0 <= k < before.len() && (#[trigger] before[k]).entity == o;
                            if k0 < j {
                                assert(list[k0].entity == o);
                            } else {
                                assert(list[k0 + 1] == before[k0]);
                                assert(list[k0 + 1].entity == o);
                            }
                        } else {
                            assert(o == e);
                            assert(list[j as int].entity == o);
                        }
                    }
                    assert forall|a: int, b: int| 0 <= a < b < list.len() implies drawn_before(
                        list[a],
                        list[b],
                    ) by {
                        let la = if a < j {
                            before[a]
                        } else if a == j {
                            d
                        } else {
                            before[a - 1]
                        };
                        let lb = if b < j {
                            before[b]
                        } else if b == j {
                            d
                        } else {
                            before[b - 1]
                        };
                        assert(list[a] == la && list[b] == lb);
                        if b == j {
                            assert(before[a].render_order >= d.render_order);
                            assert(before[a].entity.id < id);
                        } else if a == j {
                            assert(before[j as int].render_order < d.render_order);
                            if b - 1 > j {
                                assert(drawn_before(before[j as int], before[b - 1]));
                            }
                        }
                    }
                }
            },
            None => {},
        }
        id = id + 1;
    }
    list
}

} // verus!
