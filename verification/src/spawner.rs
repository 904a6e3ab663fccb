//! Who and what is on a level when the player arrives.

use crate::components::{
    BlocksTile, CombatStats, Consumable, Item, KnownSpells, MagicStats, Monster, Name, Player,
    ProvidesHealing, Renderable, Rgb, Viewshed,
};
use crate::geometry::Position;
use crate::map::{on_map, TileMap};
use crate::map_builders::{room_fits, rooms_fit};
use crate::map_drawing::{cp437, to_cp437};
use crate::rect::Rect;
use crate::store::Entity;
use crate::world::World;
use vstd::prelude::*;
use vstd::string::*;

verus! {

/// Most monsters that a room gets.
pub const MAX_MONSTERS: i32 = 4;

/// Most items that a room gets.
pub const MAX_ITEMS: i32 = 2;

/// How far the player and the monsters see.
pub const SIGHT: i32 = 8;

/// Whatever the first `n` entities have in `a` they have in `b`, and
/// nothing else.
pub open spec fn agree_below<T>(a: Map<Entity, T>, b: Map<Entity, T>, n: nat) -> bool {
    forall|e: Entity|
        e.id < n ==> (#[trigger] a.dom().contains(e) == b.dom().contains(e)) && (a.dom().contains(
            e,
        ) ==> a[e] == b[e])
}

impl World {
    /// Whatever the first `n` entities had in `before` they have in
    /// `self`, and nothing else.
    pub open spec fn same_below(&self, before: &World, n: nat) -> bool {
        &&& agree_below(self.positions@, before.positions@, n)
        &&& agree_below(self.viewsheds@, before.viewsheds@, n)
        &&& agree_below(self.combat_stats@, before.combat_stats@, n)
        &&& agree_below(self.magic_stats@, before.magic_stats@, n)
        &&& agree_below(self.kinds.names@, before.kinds.names@, n)
        &&& agree_below(self.kinds.players@, before.kinds.players@, n)
        &&& agree_below(self.kinds.monsters@, before.kinds.monsters@, n)
        &&& agree_below(self.kinds.items@, before.kinds.items@, n)
        &&& agree_below(self.kinds.blocks_tile@, before.kinds.blocks_tile@, n)
        &&& agree_below(self.kinds.renderables@, before.kinds.renderables@, n)
        &&& agree_below(self.kinds.consumables@, before.kinds.consumables@, n)
        &&& agree_below(self.kinds.provides_healing@, before.kinds.provides_healing@, n)
        &&& agree_below(self.kinds.known_spells@, before.kinds.known_spells@, n)
    }

    /// Nothing but the entities and the fragments that a newcomer gets
    /// differs between `self` and `before`.
    pub open spec fn same_but_newcomers(&self, before: &World) -> bool {
        &&& self.player == before.player
        &&& self.player_pos == before.player_pos
        &&& self.run_state == before.run_state
        &&& self.map == before.map
        &&& self.log == before.log
        &&& self.intents == before.intents
        &&& self.suffer_damage == before.suffer_damage
        &&& self.confused == before.confused
        &&& self.in_backpack == before.in_backpack
        &&& self.equipped == before.equipped
        &&& self.kinds.inflicts_damage == before.kinds.inflicts_damage
        &&& self.kinds.area_of_effect == before.kinds.area_of_effect
        &&& self.kinds.destroys_walls == before.kinds.destroys_walls
        &&& self.kinds.equippable == before.kinds.equippable
        &&& self.kinds.spells == before.kinds.spells
        &&& self.entities.alive.len() >= before.entities.alive.len()
        &&& self.entities.alive@.take(before.entities.alive.len() as int)
            == before.entities.alive@
        &&& self.same_below(before, before.entities.alive.len() as nat)
    }
}

/// `e` stands at `(x, y)`, is drawn as `glyph` and is called `name`.
pub open spec fn stands_as(world: &World, e: Entity, x: i32, y: i32, glyph: char, name: Seq<char>)
    -> bool {
    &&& world.entities.is_alive(e)
    &&& world.positions.lookup(e) == Some(Position { x, y })
    &&& world.kinds.renderables@.dom().contains(e)
    &&& world.kinds.renderables@[e].glyph == cp437(glyph)
    &&& world.kinds.names@.dom().contains(e)
    &&& world.kinds.names@[e].name@ == name
}

/// `e` sees `SIGHT` tiles far and has not looked yet.
pub open spec fn is_sighted(world: &World, e: Entity) -> bool {
    &&& world.viewsheds@.dom().contains(e)
    &&& world.viewsheds@[e].range == SIGHT
    &&& world.viewsheds@[e].dirty
    &&& world.viewsheds@[e].visible_tiles@ == Seq::<Position>::empty()
}

/// `e` is the player as it starts out: thirty hit points, five mana, no
/// spells yet.
pub open spec fn is_player(world: &World, e: Entity, x: i32, y: i32) -> bool {
    &&& stands_as(world, e, x, y, '@', "Player"@)
    &&& world.kinds.renderables@[e].render_order == 0
    &&& world.kinds.players@.dom().contains(e)
    &&& world.combat_stats.lookup(e) == Some(
        CombatStats { max_hp: 30, hp: 30, defense: 2, attack: 5 },
    )
    &&& world.magic_stats.lookup(e) == Some(MagicStats { max_mana: 5, mana: 5 })
    &&& world.kinds.known_spells@.dom().contains(e)
    &&& world.kinds.known_spells@[e].spells@.len() == 0
    &&& is_sighted(world, e)
}

/// `e` is a monster as it starts out: an orc for a roll of one and a
/// goblin for any other, with sixteen hit points, and in the way.
pub open spec fn is_monster(world: &World, e: Entity, x: i32, y: i32, roll: i32) -> bool {
    &&& if roll == 1 {
        stands_as(world, e, x, y, 'o', "Orc"@)
    } else {
        stands_as(world, e, x, y, 'g', "Goblin"@)
    }
    &&& world.kinds.renderables@[e].render_order == 1
    &&& world.kinds.monsters@.dom().contains(e)
    &&& world.kinds.blocks_tile@.dom().contains(e)
    &&& world.combat_stats.lookup(e) == Some(
        CombatStats { max_hp: 16, hp: 16, defense: 1, attack: 4 },
    )
    &&& is_sighted(world, e)
}

/// `e` is a health potion: an item that heals eight hit points once.
pub open spec fn is_health_potion(world: &World, e: Entity, x: i32, y: i32) -> bool {
    &&& stands_as(world, e, x, y, '!', "Health Potion"@)
    &&& world.kinds.renderables@[e].render_order == 2
    &&& world.kinds.items@.dom().contains(e)
    &&& world.kinds.consumables@.dom().contains(e)
    &&& world.kinds.provides_healing.lookup(e) == Some(ProvidesHealing { heal_amount: 8 })
}

fn stand(ecs: &mut World, x: i32, y: i32, glyph: char, fg: Rgb, render_order: i32, name: &str)
    -> (e: Entity)
    requires
        old(ecs).wf(),
        on_map(x as int, y as int),
    ensures
        e.id == old(ecs).entities.alive.len(),
        final(ecs).entities.alive@ == old(ecs).entities.alive@.push(true),
        final(ecs).positions@ == old(ecs).positions@.insert(e, Position { x, y }),
        final(ecs).kinds.renderables@ == old(ecs).kinds.renderables@.insert(
            e,
            Renderable { glyph: cp437(glyph), fg, bg: Rgb { r: 0, g: 0, b: 0 }, render_order },
        ),
        final(ecs).kinds.names@.dom() == old(ecs).kinds.names@.dom().insert(e),
        final(ecs).kinds.names@[e].name@ == name@,
        forall|o: Entity|
            o != e ==> (#[trigger] final(ecs).kinds.names@.dom().contains(o) == old(
                ecs,
            ).kinds.names@.dom().contains(o)) && (old(ecs).kinds.names@.dom().contains(o)
                ==> final(ecs).kinds.names@[o] == old(ecs).kinds.names@[o]),
        *final(ecs) == (World {
            entities: final(ecs).entities,
            positions: final(ecs).positions,
            kinds: crate::world::Kinds {
                renderables: final(ecs).kinds.renderables,
                names: final(ecs).kinds.names,
                ..old(ecs).kinds
            },
            ..*old(ecs)
        }),
        final(ecs).wf(),
{
    let e = ecs.create_entity();
    ecs.positions.insert(e, Position { x, y });
    ecs.kinds.renderables.insert(
        e,
        Renderable { glyph: to_cp437(glyph), fg, bg: Rgb { r: 0, g: 0, b: 0 }, render_order },
    );
    ecs.kinds.names.insert(e, Name { name: String::from_str(name) });
    assert(ecs.kinds.names@.dom() =~= old(ecs).kinds.names@.dom().insert(e));
    e
}

fn give_sight(ecs: &mut World, e: Entity)
    ensures
        is_sighted(final(ecs), e),
        final(ecs).viewsheds@.dom() == old(ecs).viewsheds@.dom().insert(e),
        forall|o: Entity|
            o != e ==> (#[trigger] final(ecs).viewsheds@.dom().contains(o) == old(
                ecs,
            ).viewsheds@.dom().contains(o)) && (old(ecs).viewsheds@.dom().contains(o)
                ==> final(ecs).viewsheds@[o] == old(ecs).viewsheds@[o]),
        *final(ecs) == (World { viewsheds: final(ecs).viewsheds, ..*old(ecs) }),
{
    ecs.viewsheds.insert(e, Viewshed { visible_tiles: Vec::new(), range: SIGHT, dirty: true });
    assert(ecs.viewsheds@.dom() =~= old(ecs).viewsheds@.dom().insert(e));
}

/// Makes the player at `(player_x, player_y)`.
pub fn player(ecs: &mut World, player_x: i32, player_y: i32) -> (e: Entity)
    requires
        old(ecs).wf(),
        on_map(player_x as int, player_y as int),
    ensures
        e.id == old(ecs).entities.alive.len(),
        final(ecs).entities.alive@ == old(ecs).entities.alive@.push(true),
        is_player(final(ecs), e, player_x, player_y),
        final(ecs).same_but_newcomers(old(ecs)),
        final(ecs).wf(),
{
    let e = stand(ecs, player_x, player_y, '@', Rgb { r: 255, g: 255, b: 0 }, 0, "Player");
    ecs.kinds.players.insert(e, Player {  });
    ecs.combat_stats.insert(e, CombatStats { max_hp: 30, hp: 30, defense: 2, attack: 5 });
    ecs.magic_stats.insert(e, MagicStats { max_mana: 5, mana: 5 });
    ecs.kinds.known_spells.insert(e, KnownSpells { spells: Vec::new() });
    give_sight(ecs, e);
    assert(ecs.entities.alive@.take(old(ecs).entities.alive.len() as int) =~= old(
        ecs,
    ).entities.alive@);
    e
}

/// Makes a monster at `(x, y)`: an orc for a roll of one, a goblin for
/// any other.
pub fn random_monster(ecs: &mut World, x: i32, y: i32, roll: i32) -> (e: Entity)
    requires
        old(ecs).wf(),
        on_map(x as int, y as int),
    ensures
        e.id == old(ecs).entities.alive.len(),
        final(ecs).entities.alive@ == old(ecs).entities.alive@.push(true),
        is_monster(final(ecs), e, x, y, roll),
        final(ecs).same_but_newcomers(old(ecs)),
        final(ecs).wf(),
{
    let red = Rgb { r: 255, g: 0, b: 0 };
    let e = if roll == 1 {
        stand(ecs, x, y, 'o', red, 1, "Orc")
    } else {
        stand(ecs, x, y, 'g', red, 1, "Goblin")
    };
    ecs.kinds.monsters.insert(e, Monster {  });
    ecs.kinds.blocks_tile.insert(e, BlocksTile {  });
    ecs.combat_stats.insert(e, CombatStats { max_hp: 16, hp: 16, defense: 1, attack: 4 });
    give_sight(ecs, e);
    assert(ecs.entities.alive@.take(old(ecs).entities.alive.len() as int) =~= old(
        ecs,
    ).entities.alive@);
    e
}

/// Makes a health potion at `(x, y)`.
pub fn health_potion(ecs: &mut World, x: i32, y: i32) -> (e: Entity)
    requires
        old(ecs).wf(),
        on_map(x as int, y as int),
    ensures
        e.id == old(ecs).entities.alive.len(),
        final(ecs).entities.alive@ == old(ecs).entities.alive@.push(true),
        is_health_potion(final(ecs), e, x, y),
        final(ecs).same_but_newcomers(old(ecs)),
        final(ecs).wf(),
{
    let e = stand(ecs, x, y, '!', Rgb { r: 255, g: 0, b: 255 }, 2, "Health Potion");
    ecs.kinds.items.insert(e, Item {  });
    ecs.kinds.consumables.insert(e, Consumable {  });
    ecs.kinds.provides_healing.insert(e, ProvidesHealing { heal_amount: 8 });
    assert(ecs.entities.alive@.take(old(ecs).entities.alive.len() as int) =~= old(
        ecs,
    ).entities.alive@);
    e
}

/// The tile `p` lies in `room`: right of its first column and below its
/// first row.
pub open spec fn inside(room: Rect, p: Position) -> bool {
    room.x1 < p.x <= room.x2 && room.y1 < p.y <= room.y2
}

/// `after` is `before` with newcomers in `room`: at most as many as a
/// room can get, each of them standing in the room, and nobody else
/// touched.
pub open spec fn settled(before: &World, after: &World, room: Rect) -> bool {
    &&& after.same_but_newcomers(before)
    &&& after.entities.alive.len() <= before.entities.alive.len() + MAX_MONSTERS + MAX_ITEMS
    &&& forall|e: Entity|
        before.entities.alive.len() <= e.id < after.entities.alive.len() ==> {
            &&& #[trigger] after.positions@.dom().contains(e)
            &&& inside(room, after.positions@[e])
        }
}

/// Being the same but for newcomers carries over from step to step.
proof fn lemma_newcomers_add_up(a: &World, b: &World, c: &World)
    requires
        b.same_but_newcomers(a),
        c.same_but_newcomers(b),
    ensures
        c.same_but_newcomers(a),
{
    assert(c.entities.alive@.take(a.entities.alive.len() as int) =~= a.entities.alive@) by {
        assert forall|i: int| 0 <= i < a.entities.alive.len() implies c.entities.alive@[i]
            == a.entities.alive@[i] by {
            assert(c.entities.alive@.take(b.entities.alive.len() as int)[i] == b.entities.alive@[i]);
            assert(b.entities.alive@.take(a.entities.alive.len() as int)[i] == a.entities.alive@[i]);
        }
    }
}

/// Settles `room`: throws the dice for how many monsters and potions
/// it gets and for where each of them stands.
pub fn spawn_room(ecs: &mut World, room: &Rect, rng: &mut rltk::RandomNumberGenerator)
    requires
        old(ecs).wf(),
        room_fits(*room),
    ensures
        settled(old(ecs), final(ecs), *room),
        final(ecs).wf(),
{
    let num_monsters = rng.roll_dice(1, MAX_MONSTERS + 2) - 2;
    let num_items = rng.roll_dice(1, MAX_ITEMS + 2) - 2;
    let mut i: i32 = 0;
    assert(ecs.entities.alive@.take(ecs.entities.alive.len() as int) =~= ecs.entities.alive@);
    while i < num_monsters
        invariant
            0 <= i,
            i <= num_monsters || i == 0,
            num_monsters <= MAX_MONSTERS,
            old(ecs).wf(),
            ecs.wf(),
            room_fits(*room),
            ecs.same_but_newcomers(old(ecs)),
            ecs.entities.alive.len() == old(ecs).entities.alive.len() + i,
            forall|e: Entity|
                old(ecs).entities.alive.len() <= e.id < ecs.entities.alive.len() ==> {
                    &&& #[trigger] ecs.positions@.dom().contains(e)
                    &&& inside(*room, ecs.positions@[e])
                },
        decreases num_monsters - i,
    {
        let x = room.x1 + rng.roll_dice(1, room.x2 - room.x1);
        let y = room.y1 + rng.roll_dice(1, room.y2 - room.y1);
        let roll = rng.roll_dice(1, 2);
        let ghost before = *ecs;
        random_monster(ecs, x, y, roll);
        proof {
            lemma_newcomers_add_up(old(ecs), &before, ecs);
            assert forall|e: Entity|
                old(ecs).entities.alive.len() <= e.id < ecs.entities.alive.len() implies {
                &&& #[trigger] ecs.positions@.dom().contains(e)
                &&& inside(*room, ecs.positions@[e])
            } by {
                if e.id < before.entities.alive.len() {
                    assert(before.positions@.dom().contains(e));
                }
            }
        }
        i = i + 1;
    }
    let ghost monsters = ecs.entities.alive.len() - old(ecs).entities.alive.len();
    let mut k: i32 = 0;
    while k < num_items
        invariant
            0 <= k,
            k <= num_items || k == 0,
            num_items <= MAX_ITEMS,
            0 <= monsters <= MAX_MONSTERS,
            old(ecs).wf(),
            ecs.wf(),
            room_fits(*room),
            ecs.same_but_newcomers(old(ecs)),
            ecs.entities.alive.len() == old(ecs).entities.alive.len() + monsters + k,
            forall|e: Entity|
                old(ecs).entities.alive.len() <= e.id < ecs.entities.alive.len() ==> {
                    &&& #[trigger] ecs.positions@.dom().contains(e)
                    &&& inside(*room, ecs.positions@[e])
                },
        decreases num_items - k,
    {
        let x = room.x1 + rng.roll_dice(1, room.x2 - room.x1);
        let y = room.y1 + rng.roll_dice(1, room.y2 - room.y1);
        let ghost before = *ecs;
        health_potion(ecs, x, y);
        proof {
            lemma_newcomers_add_up(old(ecs), &before, ecs);
            assert forall|e: Entity|
                old(ecs).entities.alive.len() <= e.id < ecs.entities.alive.len() implies {
                &&& #[trigger] ecs.positions@.dom().contains(e)
                &&& inside(*room, ecs.positions@[e])
            } by {
                if e.id < before.entities.alive.len() {
                    assert(before.positions@.dom().contains(e));
                }
            }
        }
        k = k + 1;
    }
}

/// `after` is `before` with every room of `rooms` but the first settled:
/// each newcomer stands in one of those rooms, and nobody else is touched.
pub open spec fn settled_all(before: &World, after: &World, rooms: Seq<Rect>) -> bool {
    &&& after.same_but_newcomers(before)
    &&& forall|e: Entity|
        before.entities.alive.len() <= e.id < after.entities.alive.len() ==> {
            &&& #[trigger] after.positions@.dom().contains(e)
            &&& exists|r: int| 1 <= r < rooms.len() && inside(#[trigger] rooms[r], after.positions@[e])
        }
}

/// Settles every room of `map` but the first, which is the player's.
/// Every level is settled alike, whatever its depth.
pub fn spawn(map: &TileMap, ecs: &mut World, new_depth: i32)
    requires
        old(ecs).wf(),
        rooms_fit(map.rooms@),
    ensures
        settled_all(old(ecs), final(ecs), map.rooms@),
        final(ecs).wf(),
{
    let mut rng = rltk::RandomNumberGenerator::new();
    let mut r: usize = 1;
    assert(ecs.entities.alive@.take(ecs.entities.alive.len() as int) =~= ecs.entities.alive@);
    while r < map.rooms.len()
        invariant
            1 <= r,
            old(ecs).wf(),
            ecs.wf(),
            rooms_fit(map.rooms@),
            ecs.same_but_newcomers(old(ecs)),
            forall|e: Entity|
                old(ecs).entities.alive.len() <= e.id < ecs.entities.alive.len() ==> {
                    &&& #[trigger] ecs.positions@.dom().contains(e)
                    &&& exists|q: int|
                        1 <= q < map.rooms.len() && inside(
                            #[trigger] map.rooms[q],
                            ecs.positions@[e],
                        )
                },
        decreases map.rooms.len() - r,
    {
        let ghost before = *ecs;
        assert(room_fits(map.rooms[r as int]));
        spawn_room(ecs, &map.rooms[r], &mut rng);
        proof {
            lemma_newcomers_add_up(old(ecs), &before, ecs);
            assert forall|e: Entity|
                old(ecs).entities.alive.len() <= e.id < ecs.entities.alive.len() implies {
                &&& #[trigger] ecs.positions@.dom().contains(e)
                &&& exists|q: int|
                    1 <= q < map.rooms.len() && inside(#[trigger] map.rooms[q], ecs.positions@[e])
            } by {
                if e.id < before.entities.alive.len() {
                    assert(before.positions@.dom().contains(e));
                    assert(ecs.positions@.dom().contains(e));
                    let q = choose|q: int|
                        1 <= q < map.rooms.len() && inside(
                            #[trigger] map.rooms[q],
                            before.positions@[e],
                        );
                    assert(inside(map.rooms[q], ecs.positions@[e]));
                } else {
                    assert(ecs.positions@.dom().contains(e));
                    assert(inside(map.rooms[r as int], ecs.positions@[e]));
                }
            }
        }
        r = r + 1;
    }
}

} // verus!
