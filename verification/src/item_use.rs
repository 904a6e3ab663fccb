//! What using one item does: who it reaches and what happens to them.

use crate::components::{
    AreaOfEffect, CombatStats, Confusion, EquipmentSlot, Equipped, InBackpack, MagicStats, Name,
    SufferDamage, WantsToUseItem,
};
use crate::gamelog::{decimal, decimal_string, GameLog};
use crate::geometry::{disc, in_disc, points_in_circle, Position};
use crate::map::{in_interior, on_map, tile_index, TileMap, TileType, TILE_COUNT};
use crate::store::{Entity, Store};
use crate::world::{name_of, pending_damage, Kinds, World};
use vstd::prelude::*;
use vstd::string::*;

verus! {

/// The tile `p` lies inside the outer ring of the level.
pub open spec fn interior(p: Position) -> bool {
    in_interior(p.x as int, p.y as int)
}

/// The tiles that an item with the area `aoe` reaches when it is aimed at
/// `target`: the interior tiles within its radius, column by column.
/// Without an area or without a target there are none.
pub open spec fn blast_tiles(aoe: Option<AreaOfEffect>, target: Option<Position>) -> Seq<Position> {
    match (target, aoe) {
        (Some(t), Some(a)) => disc(t, a.radius as int).filter(|p: Position| interior(p)),
        _ => Seq::empty(),
    }
}

/// The entities that the index lists on the tile `p`; none off the map.
pub open spec fn content_at(content: Seq<Vec<Entity>>, p: Position) -> Seq<Entity> {
    if on_map(p.x as int, p.y as int) && tile_index(p.x as int, p.y as int) < content.len() {
        content[tile_index(p.x as int, p.y as int)]@
    } else {
        Seq::empty()
    }
}

/// The entities on `tiles`, tile after tile.
pub open spec fn occupants(content: Seq<Vec<Entity>>, tiles: Seq<Position>) -> Seq<Entity>
    decreases tiles.len(),
{
    if tiles.len() == 0 {
        Seq::empty()
    } else {
        occupants(content, tiles.drop_last()) + content_at(content, tiles.last())
    }
}

/// Whom a use reaches.  Without a target tile it is the user.  With one it
/// is whoever stands on that tile, or, for an item with an area, whoever
/// stands on a tile of the blast.
pub open spec fn resolve_targets(
    content: Seq<Vec<Entity>>,
    aoe: Option<AreaOfEffect>,
    user: Entity,
    target: Option<Position>,
) -> Seq<Entity> {
    match target {
        None => seq![user],
        Some(t) => match aoe {
            None => content_at(content, t),
            Some(_) => occupants(content, blast_tiles(aoe, target)),
        },
    }
}

proof fn lemma_filter_push<A>(s: Seq<A>, x: A, pred: spec_fn(A) -> bool)
    ensures
        s.push(x).filter(pred) == if pred(x) {
            s.filter(pred).push(x)
        } else {
            s.filter(pred)
        },
{
    assert(s.push(x).drop_last() =~= s);
    reveal_with_fuel(Seq::filter, 2);
}

proof fn lemma_occupants_push(content: Seq<Vec<Entity>>, tiles: Seq<Position>, p: Position)
    ensures
        occupants(content, tiles.push(p)) == occupants(content, tiles) + content_at(content, p),
{
    assert(tiles.push(p).drop_last() =~= tiles);
}

/// `p` is a tile of the blast of an item with the area `aoe` aimed at
/// `target`: an interior tile of the level at Euclidean distance at most
/// the radius from the target.
pub open spec fn in_blast(aoe: Option<AreaOfEffect>, target: Option<Position>, p: Position)
    -> bool {
    aoe is Some && target is Some && interior(p) && in_disc(
        target->0,
        (aoe->0).radius as int,
        p,
    )
}

/// Lists the tiles of the blast of an item aimed at `target`: exactly the
/// interior tiles within the radius, each once.
pub fn find_blast_tiles(aoe: Option<AreaOfEffect>, target: Option<Position>) -> (blast: Vec<
    Position,
>)
    ensures
        blast@ == blast_tiles(aoe, target),
        forall|k: int| 0 <= k < blast.len() ==> interior(#[trigger] blast[k]),
        forall|p: Position| blast@.contains(p) <==> in_blast(aoe, target, p),
        blast@.no_duplicates(),
{
    let mut blast: Vec<Position> = Vec::new();
    match (target, aoe) {
        (Some(t), Some(a)) => {
            let points = points_in_circle(t, a.radius);
            let ghost pred = |p: Position| interior(p);
            let mut i: usize = 0;
            assert(points@.take(0) =~= Seq::empty());
            while i < points.len()
                invariant
                    0 <= i <= points.len(),
                    pred == (|p: Position| interior(p)),
                    blast@ == points@.take(i as int).filter(pred),
                    forall|k: int| 0 <= k < blast.len() ==> interior(#[trigger] blast[k]),
                    forall|k: int|
                        0 <= k < blast.len() ==> exists|j: int|
                            0 <= j < i && points[j] == #[trigger] blast[k],
                    forall|j: int|
                        0 <= j < i && interior(points[j]) ==> blast@.contains(#[trigger] points[j]),
                    forall|a: int, b: int|
                        0 <= a < b < blast.len() ==> crate::geometry::column_major_before(
                            blast[a],
                            blast[b],
                        ),
                    crate::geometry::lists_disc(points@, t, a.radius as int),
                decreases points.len() - i,
            {
                let p = points[i];
                let ghost before = blast@;
                proof {
                    lemma_filter_push(points@.take(i as int), p, pred);
                    assert(points@.take(i as int + 1) =~= points@.take(i as int).push(p));
                }
                if p.x > 0 && p.x < 65 && p.y > 0 && p.y < 42 {
                    blast.push(p);
                    proof {
                        assert(blast@[before.len() as int] == p);
                        assert forall|j: int| 0 <= j < i + 1 && interior(
                            points[j],
                        ) implies blast@.contains(#[trigger] points[j]) by {
                            if j < i {
                                let k = choose|k: int| 0 <= k < before.len() && before[k] == points[j];
                                assert(blast@[k] == points[j]);
                            }
                        }
                        assert forall|a: int, b: int| 0 <= a < b < blast.len() implies crate::geometry::column_major_before(
                            blast[a],
                            blast[b],
                        ) by {
                            if b == before.len() {
                                let j = choose|j: int| 0 <= j < i && points[j] == before[a];
                                assert(crate::geometry::column_major_before(points[j], points[i as int]));
                            }
                        }
                    }
                }
                i = i + 1;
            }
            assert(points@.take(points.len() as int) =~= points@);
            proof {
                assert forall|p: Position| blast@.contains(p) <==> in_blast(aoe, target, p) by {
                    if blast@.contains(p) {
                        let k = choose|k: int| 0 <= k < blast@.len() && blast@[k] == p;
                        let j = choose|j: int| 0 <= j < points.len() && points[j] == blast[k];
                        assert(points@.contains(p));
                    }
                    if in_blast(aoe, target, p) {
                        assert(points@.contains(p));
                        let j = choose|j: int| 0 <= j < points@.len() && points@[j] == p;
                        assert(blast@.contains(points[j]));
                    }
                }
                assert forall|a: int, b: int| 0 <= a < blast.len() && 0 <= b < blast.len() && a
                    != b implies blast[a] != blast[b] by {
                    if a < b {
                        assert(crate::geometry::column_major_before(blast[a], blast[b]));
                    } else {
                        assert(crate::geometry::column_major_before(blast[b], blast[a]));
                    }
                }
            }
        },
        _ => {},
    }
    blast
}

/// Copies the occupant list of the tile `p`.
fn push_content(map: &TileMap, p: Position, targets: &mut Vec<Entity>)
    requires
        map.wf(),
    ensures
        final(targets)@ == old(targets)@ + content_at(map.tile_content@, p),
{
    if map.in_bounds(p.x, p.y) {
        let idx = map.xy_idxi32(p.x, p.y);
        let here = &map.tile_content[idx];
        let mut k: usize = 0;
        assert(here@.take(0) =~= Seq::empty());
        while k < here.len()
            invariant
                0 <= k <= here.len(),
                targets@ == old(targets)@ + here@.take(k as int),
            decreases here.len() - k,
        {
            targets.push(here[k]);
            assert(here@.take(k as int + 1) =~= here@.take(k as int).push(here[k as int]));
            k = k + 1;
        }
        assert(here@.take(here.len() as int) =~= here@);
    } else {
        assert(targets@ =~= old(targets)@ + Seq::<Entity>::empty());
    }
}

/// Lists whom a use by `user` reaches, given the tiles of its blast.
pub fn find_targets(
    map: &TileMap,
    aoe: Option<AreaOfEffect>,
    user: Entity,
    target: Option<Position>,
    blast: &Vec<Position>,
) -> (targets: Vec<Entity>)
    requires
        map.wf(),
        blast@ == blast_tiles(aoe, target),
    ensures
        targets@ == resolve_targets(map.tile_content@, aoe, user, target),
{
    let mut targets: Vec<Entity> = Vec::new();
    match target {
        None => {
            targets.push(user);
            assert(targets@ =~= seq![user]);
        },
        Some(t) => {
            match aoe {
                None => {
                    push_content(map, t, &mut targets);
                    assert(targets@ =~= content_at(map.tile_content@, t));
                },
                Some(_) => {
                    let mut i: usize = 0;
                    assert(blast@.take(0) =~= Seq::empty());
                    while i < blast.len()
                        invariant
                            map.wf(),
                            0 <= i <= blast.len(),
                            targets@ == occupants(map.tile_content@, blast@.take(i as int)),
                        decreases blast.len() - i,
                    {
                        proof {
                            lemma_occupants_push(
                                map.tile_content@,
                                blast@.take(i as int),
                                blast[i as int],
                            );
                            assert(blast@.take(i as int + 1) =~= blast@.take(i as int).push(
                                blast[i as int],
                            ));
                        }
                        push_content(map, blast[i], &mut targets);
                        i = i + 1;
                    }
                    assert(blast@.take(blast.len() as int) =~= blast@);
                },
            }
        },
    }
    targets
}


/// Some tile of `blast` has the index `i` and is a wall in `tiles`.
pub open spec fn hits_wall(tiles: Seq<TileType>, blast: Seq<Position>, i: int) -> bool {
    tiles[i] == TileType::Wall && exists|k: int|
        0 <= k < blast.len() && tile_index((#[trigger] blast[k]).x as int, blast[k].y as int) == i
}

/// `tiles` with every wall on a tile of `blast` turned into floor.
pub open spec fn destroy_walls(tiles: Seq<TileType>, blast: Seq<Position>) -> Seq<TileType> {
    Seq::new(
        tiles.len(),
        |i: int|
            if hits_wall(tiles, blast, i) {
                TileType::Floor
            } else {
                tiles[i]
            },
    )
}

/// Some tile of `blast` is a wall in `tiles`.
pub open spec fn any_wall(tiles: Seq<TileType>, blast: Seq<Position>) -> bool {
    exists|i: int| 0 <= i < tiles.len() && hits_wall(tiles, blast, i)
}

/// Turns the walls on the tiles of `blast` into floor and says whether
/// there was one.
pub fn destroy_walls_on(map: &mut TileMap, blast: &Vec<Position>) -> (destroyed: bool)
    requires
        old(map).wf(),
        forall|k: int| 0 <= k < blast.len() ==> interior(#[trigger] blast[k]),
    ensures
        final(map).tiles@ == destroy_walls(old(map).tiles@, blast@),
        destroyed == any_wall(old(map).tiles@, blast@),
        *final(map) == (TileMap { tiles: final(map).tiles, ..*old(map) }),
        final(map).wf(),
{
    let mut destroyed = false;
    let mut k: usize = 0;
    assert(map.tiles@ =~= destroy_walls(old(map).tiles@, blast@.take(0)));
    while k < blast.len()
        invariant
            0 <= k <= blast.len(),
            map.wf(),
            old(map).wf(),
            *map == (TileMap { tiles: map.tiles, ..*old(map) }),
            forall|j: int| 0 <= j < blast.len() ==> interior(#[trigger] blast[j]),
            map.tiles@ == destroy_walls(old(map).tiles@, blast@.take(k as int)),
            destroyed == any_wall(old(map).tiles@, blast@.take(k as int)),
        decreases blast.len() - k,
    {
        let p = blast[k];
        assert(interior(blast[k as int]));
        let idx = map.xy_idxi32(p.x, p.y);
        let ghost done = blast@.take(k as int);
        let ghost more = blast@.take(k as int + 1);
        proof {
            assert(more =~= done.push(p));
            assert(more[k as int] == p);
            assert forall|i: int| 0 <= i < TILE_COUNT implies (hits_wall(old(map).tiles@, more, i)
                <==> hits_wall(old(map).tiles@, done, i) || (i == idx && old(map).tiles@[i]
                == TileType::Wall)) by {
                if hits_wall(old(map).tiles@, done, i) {
                    let j = choose|j: int|
                        0 <= j < done.len() && tile_index(
                            (#[trigger] done[j]).x as int,
                            done[j].y as int,
                        ) == i;
                    assert(more[j] == done[j]);
                }
                if hits_wall(old(map).tiles@, more, i) {
                    let j = choose|j: int|
                        0 <= j < more.len() && tile_index(
                            (#[trigger] more[j]).x as int,
                            more[j].y as int,
                        ) == i;
                    if j < k {
                        assert(done[j] == more[j]);
                    }
                }
            }
        }
        match map.tiles[idx] {
            TileType::Wall => {
                map.tiles.set(idx, TileType::Floor);
                destroyed = true;
                proof {
                    assert(hits_wall(old(map).tiles@, more, idx as int) || hits_wall(
                        old(map).tiles@,
                        done,
                        idx as int,
                    ) || old(map).tiles@[idx as int] != TileType::Wall);
                }
            },
            TileType::Floor => {},
            TileType::DownStairs => {},
        }
        proof {
            assert(map.tiles@ =~= destroy_walls(old(map).tiles@, more));
            if any_wall(old(map).tiles@, more) {
                let i = choose|i: int|
                    0 <= i < old(map).tiles@.len() && hits_wall(old(map).tiles@, more, i);
                assert(hits_wall(old(map).tiles@, done, i) || i == idx);
            }
            if any_wall(old(map).tiles@, done) {
                let i = choose|i: int|
                    0 <= i < old(map).tiles@.len() && hits_wall(old(map).tiles@, done, i);
                assert(hits_wall(old(map).tiles@, more, i));
            }
        }
        k = k + 1;
    }
    assert(blast@.take(blast.len() as int) =~= blast@);
    destroyed
}

/// The mana that `user` has to spend: what its pool holds, and none
/// without a pool.
pub open spec fn mana_of(magic: Map<Entity, MagicStats>, user: Entity) -> int {
    if magic.dom().contains(user) {
        magic[user].mana as int
    } else {
        0
    }
}

/// `magic` after `user` has paid `cost`.  Only the caster pays: the pools
/// of everyone else are left alone, and a caster without a pool pays
/// nothing.
pub open spec fn pay_mana(magic: Map<Entity, MagicStats>, user: Entity, cost: int) -> Map<
    Entity,
    MagicStats,
> {
    if magic.dom().contains(user) {
        magic.insert(user, magic[user].spent(cost))
    } else {
        magic
    }
}

/// Paying for a spell keeps mana within its bounds and touches nobody
/// but the caster: whatever the price, nobody ends below zero or above
/// the maximum, no maximum changes, and a caster who can pay ends with
/// exactly the price less.
pub proof fn lemma_paying_keeps_bounds(
    magic: Map<Entity, MagicStats>,
    user: Entity,
    cost: int,
    e: Entity,
)
    requires
        magic.dom().contains(e),
        magic[e].wf(),
    ensures
        pay_mana(magic, user, cost).dom() == magic.dom(),
        pay_mana(magic, user, cost)[e].wf(),
        pay_mana(magic, user, cost)[e].max_mana == magic[e].max_mana,
        e != user ==> pay_mana(magic, user, cost)[e] == magic[e],
        e == user && 0 <= cost <= magic[e].mana ==> pay_mana(magic, user, cost)[e].mana
            == magic[e].mana - cost,
{
    assert(pay_mana(magic, user, cost).dom() =~= magic.dom());
}

/// Takes `cost` mana from `user`, if it has a pool.
pub fn pay_mana_of(magic: &mut Store<MagicStats>, user: Entity, cost: i32)
    requires
        forall|e: Entity| #[trigger] old(magic)@.dom().contains(e) ==> old(magic)@[e].wf(),
    ensures
        final(magic)@ == pay_mana(old(magic)@, user, cost as int),
        forall|e: Entity| #[trigger] final(magic)@.dom().contains(e) ==> final(magic)@[e].wf(),
{
    let found = match magic.get(user) {
        Some(m) => Some(*m),
        None => None,
    };
    match found {
        Some(m) => {
            let mut m = m;
            assert(magic@.dom().contains(user));
            assert(m.wf());
            m.spend(cost);
            magic.insert(user, m);
        },
        None => {},
    }
}

/// The mana that `user` has to spend.
pub fn mana_held(magic: &Store<MagicStats>, user: Entity) -> (mana: i32)
    ensures
        mana == mana_of(magic@, user),
{
    match magic.get(user) {
        Some(m) => m.mana,
        None => 0,
    }
}

/// `stats` after each of `targets` that has hit points was healed by
/// `amount`, one after the other.
pub open spec fn heal_targets(
    stats: Map<Entity, CombatStats>,
    targets: Seq<Entity>,
    amount: int,
) -> Map<Entity, CombatStats>
    decreases targets.len(),
{
    if targets.len() == 0 {
        stats
    } else {
        let before = heal_targets(stats, targets.drop_last(), amount);
        let t = targets.last();
        if before.dom().contains(t) {
            before.insert(t, before[t].healed(amount))
        } else {
            before
        }
    }
}

/// How many of `targets` are in `holders`, each counted as often as it is
/// listed.
pub open spec fn count_in(holders: Set<Entity>, targets: Seq<Entity>) -> nat
    decreases targets.len(),
{
    if targets.len() == 0 {
        0
    } else {
        count_in(holders, targets.drop_last()) + if holders.contains(targets.last()) {
            1nat
        } else {
            0nat
        }
    }
}

/// Healing changes hit points only, and keeps them within their bounds:
/// who has stats stays the same, and nobody ends below zero or above the
/// maximum.
pub proof fn lemma_heal_keeps_holders(
    stats: Map<Entity, CombatStats>,
    targets: Seq<Entity>,
    amount: int,
)
    ensures
        heal_targets(stats, targets, amount).dom() == stats.dom(),
        forall|e: Entity|
            stats.dom().contains(e) && stats[e].wf() ==> (#[trigger] heal_targets(
                stats,
                targets,
                amount,
            )[e]).wf() && heal_targets(stats, targets, amount)[e].max_hp == stats[e].max_hp,
    decreases targets.len(),
{
    if targets.len() > 0 {
        lemma_heal_keeps_holders(stats, targets.drop_last(), amount);
        let before = heal_targets(stats, targets.drop_last(), amount);
        let t = targets.last();
        if before.dom().contains(t) {
            assert(before.insert(t, before[t].healed(amount)).dom() =~= before.dom());
        }
        assert forall|e: Entity| stats.dom().contains(e) && stats[e].wf() implies (
        #[trigger] heal_targets(stats, targets, amount)[e]).wf() && heal_targets(
            stats,
            targets,
            amount,
        )[e].max_hp == stats[e].max_hp by {
            assert(before[e].wf());
        }
    }
}

/// Heals each of `targets` by `amount` and counts those that had hit
/// points to heal.
pub fn heal_each(stats: &mut Store<CombatStats>, targets: &Vec<Entity>, amount: i32) -> (count:
    usize)
    requires
        forall|e: Entity| #[trigger] old(stats)@.dom().contains(e) ==> old(stats)@[e].wf(),
    ensures
        final(stats)@ == heal_targets(old(stats)@, targets@, amount as int),
        count == count_in(old(stats)@.dom(), targets@),
        forall|e: Entity| #[trigger] final(stats)@.dom().contains(e) ==> final(stats)@[e].wf(),
{
    let mut count: usize = 0;
    let mut i: usize = 0;
    assert(targets@.take(0) =~= Seq::empty());
    while i < targets.len()
        invariant
            0 <= i <= targets.len(),
            count <= i,
            stats@ == heal_targets(old(stats)@, targets@.take(i as int), amount as int),
            count == count_in(old(stats)@.dom(), targets@.take(i as int)),
            forall|e: Entity| #[trigger] stats@.dom().contains(e) ==> stats@[e].wf(),
        decreases targets.len() - i,
    {
        let t = targets[i];
        proof {
            assert(targets@.take(i as int + 1).drop_last() =~= targets@.take(i as int));
            lemma_heal_keeps_holders(old(stats)@, targets@.take(i as int), amount as int);
        }
        let found = match stats.get(t) {
            Some(c) => Some(*c),
            None => None,
        };
        match found {
            Some(c) => {
                let mut c = c;
                assert(stats@.dom().contains(t));
                assert(c.wf());
                c.heal(amount);
                stats.insert(t, c);
                count = count + 1;
            },
            None => {},
        }
        i = i + 1;
    }
    assert(targets@.take(targets.len() as int) =~= targets@);
    count
}

/// `pending` with `amount` added to what waits for `victim`.
pub open spec fn add_damage(pending: Map<Entity, Seq<i32>>, victim: Entity, amount: i32) -> Map<
    Entity,
    Seq<i32>,
> {
    if pending.dom().contains(victim) {
        pending.insert(victim, pending[victim].push(amount))
    } else {
        pending.insert(victim, seq![amount])
    }
}

/// `pending` with `amount` added for each of `targets`, one after the other.
pub open spec fn damage_targets(pending: Map<Entity, Seq<i32>>, targets: Seq<Entity>, amount: i32)
    -> Map<Entity, Seq<i32>>
    decreases targets.len(),
{
    if targets.len() == 0 {
        pending
    } else {
        add_damage(damage_targets(pending, targets.drop_last(), amount), targets.last(), amount)
    }
}

impl SufferDamage {
    /// Records that `victim` is to lose `amount` hit points in this tick.
    pub fn new_damage(store: &mut Store<SufferDamage>, victim: Entity, amount: i32)
        ensures
            pending_damage(final(store)@) == add_damage(
                pending_damage(old(store)@),
                victim,
                amount,
            ),
    {
        match store.remove(victim) {
            Some(suffering) => {
                let mut suffering = suffering;
                suffering.amount.push(amount);
                store.insert(victim, suffering);
            },
            None => {
                let mut amounts: Vec<i32> = Vec::new();
                amounts.push(amount);
                store.insert(victim, SufferDamage { amount: amounts });
            },
        }
        assert(pending_damage(store@) =~= add_damage(pending_damage(old(store)@), victim, amount));
    }
}

/// Records `amount` damage for each of `targets`.
pub fn damage_each(store: &mut Store<SufferDamage>, targets: &Vec<Entity>, amount: i32)
    ensures
        pending_damage(final(store)@) == damage_targets(
            pending_damage(old(store)@),
            targets@,
            amount,
        ),
{
    let mut i: usize = 0;
    assert(targets@.take(0) =~= Seq::empty());
    while i < targets.len()
        invariant
            0 <= i <= targets.len(),
            pending_damage(store@) == damage_targets(
                pending_damage(old(store)@),
                targets@.take(i as int),
                amount,
            ),
        decreases targets.len() - i,
    {
        assert(targets@.take(i as int + 1).drop_last() =~= targets@.take(i as int));
        SufferDamage::new_damage(store, targets[i], amount);
        i = i + 1;
    }
    assert(targets@.take(targets.len() as int) =~= targets@);
}

/// `confused` with each of `targets` confused for `duration` turns.
pub open spec fn confuse_targets(
    confused: Map<Entity, Confusion>,
    targets: Seq<Entity>,
    duration: i32,
) -> Map<Entity, Confusion>
    decreases targets.len(),
{
    if targets.len() == 0 {
        confused
    } else {
        confuse_targets(confused, targets.drop_last(), duration).insert(
            targets.last(),
            Confusion { duration },
        )
    }
}

/// Confuses each of `targets` for `duration` turns.
pub fn confuse_each(confused: &mut Store<Confusion>, targets: &Vec<Entity>, duration: i32)
    ensures
        final(confused)@ == confuse_targets(old(confused)@, targets@, duration),
{
    let mut i: usize = 0;
    assert(targets@.take(0) =~= Seq::empty());
    while i < targets.len()
        invariant
            0 <= i <= targets.len(),
            confused@ == confuse_targets(old(confused)@, targets@.take(i as int), duration),
        decreases targets.len() - i,
    {
        assert(targets@.take(i as int + 1).drop_last() =~= targets@.take(i as int));
        confused.insert(targets[i], Confusion { duration });
        i = i + 1;
    }
    assert(targets@.take(targets.len() as int) =~= targets@);
}


/// The message for casting the spell `name` at the price of `cost` mana.
pub open spec fn cast_message(name: Seq<char>, cost: int) -> Seq<char> {
    "You cast "@ + name + ", costing "@ + decimal(cost) + " mana."@
}

/// The message for a cast of the spell `name` that its caster cannot pay.
pub open spec fn no_mana_message(name: Seq<char>) -> Seq<char> {
    "You do not have enough mana to cast "@ + name + "."@
}

/// The message for healing `amount` hit points with the item `item`.
pub open spec fn heal_message(item: Seq<char>, amount: int) -> Seq<char> {
    "You use the "@ + item + ", healing "@ + decimal(amount) + " hp."@
}

/// The message for confusing `victim` with the item `item`.
pub open spec fn confuse_message(item: Seq<char>, victim: Seq<char>) -> Seq<char> {
    "You use "@ + item + " on "@ + victim + ", confusing them."@
}

/// The message for taking off the item `item`.
pub open spec fn unequip_message(item: Seq<char>) -> Seq<char> {
    "You unequip "@ + item + "."@
}

/// The message for putting on the item `item`.
pub open spec fn equip_message(item: Seq<char>) -> Seq<char> {
    "You equip "@ + item + "."@
}

/// `message`, `count` times.
pub open spec fn repeated(message: Seq<char>, count: nat) -> Seq<Seq<char>> {
    Seq::new(count, |i: int| message)
}

/// What `e` is called in messages.
pub fn name_text(names: &Store<Name>, e: Entity) -> (s: String)
    ensures
        s@ == name_of(names@, e),
{
    match names.get(e) {
        Some(n) => n.name.clone(),
        None => String::from_str("something"),
    }
}

/// Writes the message for casting the spell `name`.
pub fn cast_text(name: &str, cost: i32) -> (s: String)
    ensures
        s@ == cast_message(name@, cost as int),
{
    let mut s = String::from_str("You cast ");
    s.append(name);
    s.append(", costing ");
    s.append(decimal_string(cost as i128).as_str());
    s.append(" mana.");
    s
}

/// Writes the message for a cast of the spell `name` that cannot be paid.
pub fn no_mana_text(name: &str) -> (s: String)
    ensures
        s@ == no_mana_message(name@),
{
    let mut s = String::from_str("You do not have enough mana to cast ");
    s.append(name);
    s.append(".");
    s
}

/// Writes the message for healing with `item`.
pub fn heal_text(item: &str, amount: i32) -> (s: String)
    ensures
        s@ == heal_message(item@, amount as int),
{
    let mut s = String::from_str("You use the ");
    s.append(item);
    s.append(", healing ");
    s.append(decimal_string(amount as i128).as_str());
    s.append(" hp.");
    s
}

/// Writes the message for confusing `victim` with `item`.
pub fn confuse_text(item: &str, victim: &str) -> (s: String)
    ensures
        s@ == confuse_message(item@, victim@),
{
    let mut s = String::from_str("You use ");
    s.append(item);
    s.append(" on ");
    s.append(victim);
    s.append(", confusing them.");
    s
}

/// Writes the message for taking off `item`.
pub fn unequip_text(item: &str) -> (s: String)
    ensures
        s@ == unequip_message(item@),
{
    let mut s = String::from_str("You unequip ");
    s.append(item);
    s.append(".");
    s
}

/// Writes the message for putting on `item`.
pub fn equip_text(item: &str) -> (s: String)
    ensures
        s@ == equip_message(item@),
{
    let mut s = String::from_str("You equip ");
    s.append(item);
    s.append(".");
    s
}

/// `e` is worn by `owner` in `slot`.
pub open spec fn worn_by(
    equipped: Map<Entity, Equipped>,
    owner: Entity,
    slot: EquipmentSlot,
    e: Entity,
) -> bool {
    equipped.dom().contains(e) && equipped[e].owner == owner && equipped[e].slot == slot
}

/// `e` is one of the first `bound` entities and `owner` wears it in `slot`.
pub open spec fn displaced(
    equipped: Map<Entity, Equipped>,
    owner: Entity,
    slot: EquipmentSlot,
    bound: nat,
    e: Entity,
) -> bool {
    e.id < bound && worn_by(equipped, owner, slot, e)
}

/// What is worn once `owner` has put `item` on in `slot`: what `owner`
/// wore there comes off, and `item` goes on.
pub open spec fn wear(
    equipped: Map<Entity, Equipped>,
    item: Entity,
    owner: Entity,
    slot: EquipmentSlot,
    bound: nat,
) -> Map<Entity, Equipped> {
    Map::new(
        |e: Entity|
            e == item || (equipped.dom().contains(e) && !displaced(equipped, owner, slot, bound, e)),
        |e: Entity|
            if e == item {
                Equipped { owner, slot }
            } else {
                equipped[e]
            },
    )
}

/// What lies in packs once `owner` has put `item` on in `slot`: what
/// `owner` wore there goes to its pack, and `item` leaves the pack.
pub open spec fn stow(
    backpack: Map<Entity, InBackpack>,
    equipped: Map<Entity, Equipped>,
    item: Entity,
    owner: Entity,
    slot: EquipmentSlot,
    bound: nat,
) -> Map<Entity, InBackpack> {
    Map::new(
        |e: Entity|
            e != item && (backpack.dom().contains(e) || displaced(equipped, owner, slot, bound, e)),
        |e: Entity|
            if displaced(equipped, owner, slot, bound, e) {
                InBackpack { owner }
            } else {
                backpack[e]
            },
    )
}

/// One message for each of the first `bound` entities that `owner` wears
/// in `slot`, in the order of their identifiers.
pub open spec fn unequip_log(
    names: Map<Entity, Name>,
    equipped: Map<Entity, Equipped>,
    owner: Entity,
    slot: EquipmentSlot,
    bound: nat,
) -> Seq<Seq<char>>
    decreases bound,
{
    if bound == 0 {
        Seq::empty()
    } else {
        let rest = unequip_log(names, equipped, owner, slot, (bound - 1) as nat);
        let e = Entity { id: (bound - 1) as usize };
        if worn_by(equipped, owner, slot, e) {
            rest.push(unequip_message(name_of(names, e)))
        } else {
            rest
        }
    }
}

/// What putting an item on adds to the log when it is announced.
pub open spec fn equip_log(
    names: Map<Entity, Name>,
    equipped: Map<Entity, Equipped>,
    item: Entity,
    owner: Entity,
    slot: EquipmentSlot,
    bound: nat,
) -> Seq<Seq<char>> {
    unequip_log(names, equipped, owner, slot, bound).push(equip_message(name_of(names, item)))
}

/// Puts `item` on `owner` in `slot`.  Whatever `owner` wore there, among
/// the first `bound` entities, goes to its pack.  With `announce` each
/// change is written to the log.
pub fn equip_item(
    names: &Store<Name>,
    equipped: &mut Store<Equipped>,
    backpack: &mut Store<InBackpack>,
    log: &mut GameLog,
    item: Entity,
    owner: Entity,
    slot: EquipmentSlot,
    bound: usize,
    announce: bool,
)
    ensures
        final(equipped)@ == wear(old(equipped)@, item, owner, slot, bound as nat),
        final(backpack)@ == stow(old(backpack)@, old(equipped)@, item, owner, slot, bound as nat),
        final(log)@ == old(log)@ + if announce {
            equip_log(names@, old(equipped)@, item, owner, slot, bound as nat)
        } else {
            Seq::empty()
        },
{
    let mut id: usize = 0;
    assert(log@ =~= old(log)@ + Seq::<Seq<char>>::empty());
    assert(equipped@ =~= Map::new(
        |e: Entity|
            old(equipped)@.dom().contains(e) && !displaced(old(equipped)@, owner, slot, 0, e),
        |e: Entity| old(equipped)@[e],
    ));
    assert(backpack@ =~= Map::new(
        |e: Entity|
            old(backpack)@.dom().contains(e) || displaced(old(equipped)@, owner, slot, 0, e),
        |e: Entity|
            if displaced(old(equipped)@, owner, slot, 0, e) {
                InBackpack { owner }
            } else {
                old(backpack)@[e]
            },
    ));
    while id < bound
        invariant
            0 <= id <= bound,
            equipped@ == Map::new(
                |e: Entity|
                    old(equipped)@.dom().contains(e) && !displaced(
                        old(equipped)@,
                        owner,
                        slot,
                        id as nat,
                        e,
                    ),
                |e: Entity| old(equipped)@[e],
            ),
            backpack@ == Map::new(
                |e: Entity|
                    old(backpack)@.dom().contains(e) || displaced(
                        old(equipped)@,
                        owner,
                        slot,
                        id as nat,
                        e,
                    ),
                |e: Entity|
                    if displaced(old(equipped)@, owner, slot, id as nat, e) {
                        InBackpack { owner }
                    } else {
                        old(backpack)@[e]
                    },
            ),
            log@ == old(log)@ + if announce {
                unequip_log(names@, old(equipped)@, owner, slot, id as nat)
            } else {
                Seq::empty()
            },
        decreases bound - id,
    {
        let e = Entity { id };
        let worn = match equipped.get(e) {
            Some(q) => q.owner == owner && q.slot == slot,
            None => false,
        };
        assert(worn == worn_by(old(equipped)@, owner, slot, e));
        if worn {
            if announce {
                let name = name_text(names, e);
                log.push(unequip_text(name.as_str()));
            }
            equipped.remove(e);
            backpack.insert(e, InBackpack { owner });
        }
        proof {
            let next = (id + 1) as nat;
            assert forall|o: Entity|
                displaced(old(equipped)@, owner, slot, next, o) == (displaced(
                    old(equipped)@,
                    owner,
                    slot,
                    id as nat,
                    o,
                ) || (o == e && worn)) by {}
            assert(equipped@ =~= Map::new(
                |o: Entity|
                    old(equipped)@.dom().contains(o) && !displaced(
                        old(equipped)@,
                        owner,
                        slot,
                        next,
                        o,
                    ),
                |o: Entity| old(equipped)@[o],
            ));
            assert(backpack@ =~= Map::new(
                |o: Entity|
                    old(backpack)@.dom().contains(o) || displaced(
                        old(equipped)@,
                        owner,
                        slot,
                        next,
                        o,
                    ),
                |o: Entity|
                    if displaced(old(equipped)@, owner, slot, next, o) {
                        InBackpack { owner }
                    } else {
                        old(backpack)@[o]
                    },
            ));
            if announce {
                let so_far = unequip_log(names@, old(equipped)@, owner, slot, id as nat);
                if worn {
                    assert(log@ =~= old(log)@ + so_far.push(
                        unequip_message(name_of(names@, e)),
                    ));
                }
            }
        }
        id = id + 1;
    }
    equipped.insert(item, Equipped { owner, slot });
    backpack.remove(item);
    assert(equipped@ =~= wear(old(equipped)@, item, owner, slot, bound as nat));
    assert(backpack@ =~= stow(old(backpack)@, old(equipped)@, item, owner, slot, bound as nat));
    if announce {
        let name = name_text(names, item);
        log.push(equip_text(name.as_str()));
        assert(log@ =~= old(log)@ + equip_log(
            names@,
            old(equipped)@,
            item,
            owner,
            slot,
            bound as nat,
        ));
    }
}


/// The part of the world that using an item can change.
pub struct Effects {
    pub log: Seq<Seq<char>>,
    pub tiles: Seq<TileType>,
    pub stats: Map<Entity, CombatStats>,
    pub magic: Map<Entity, MagicStats>,
    pub pending: Map<Entity, Seq<i32>>,
    pub confused: Map<Entity, Confusion>,
    pub equipped: Map<Entity, Equipped>,
    pub backpack: Map<Entity, InBackpack>,
    pub alive: Seq<bool>,
}

impl World {
    /// The part of this world that using an item can change.
    pub open spec fn effects(&self) -> Effects {
        Effects {
            log: self.log@,
            tiles: self.map.tiles@,
            stats: self.combat_stats@,
            magic: self.magic_stats@,
            pending: pending_damage(self.suffer_damage@),
            confused: self.confused@,
            equipped: self.equipped@,
            backpack: self.in_backpack@,
            alive: self.entities.alive@,
        }
    }

    /// Everything that using an item leaves alone is the same in `self`
    /// and `other`.
    pub open spec fn same_but_effects(&self, other: &World) -> bool {
        &&& self.player == other.player
        &&& self.player_pos == other.player_pos
        &&& self.run_state == other.run_state
        &&& self.map == (TileMap { tiles: self.map.tiles, ..other.map })
        &&& self.kinds == other.kinds
        &&& self.positions == other.positions
        &&& self.viewsheds == other.viewsheds
    }
}

/// The tiles after `item` was used with the blast `blast`.
pub open spec fn tiles_after(kinds: Kinds, tiles: Seq<TileType>, item: Entity, blast: Seq<Position>)
    -> Seq<TileType> {
    if kinds.destroys_walls@.dom().contains(item) {
        destroy_walls(tiles, blast)
    } else {
        tiles
    }
}

/// The mana pools after `user` has used `item`: a spell costs its caster
/// its price, and nobody else anything.
pub open spec fn magic_after(
    kinds: Kinds,
    magic: Map<Entity, MagicStats>,
    user: Entity,
    item: Entity,
) -> Map<Entity, MagicStats> {
    match kinds.spells.lookup(item) {
        Some(spell) => pay_mana(magic, user, spell.mana_cost as int),
        None => magic,
    }
}

/// `user` cannot pay for `item`: the item is a spell, and its price is
/// above the mana that the user has.  A user without a pool has none, so
/// it can cast only what costs nothing.
pub open spec fn cannot_pay(
    kinds: Kinds,
    magic: Map<Entity, MagicStats>,
    user: Entity,
    item: Entity,
) -> bool {
    match kinds.spells.lookup(item) {
        Some(spell) => mana_of(magic, user) < spell.mana_cost,
        None => false,
    }
}

/// The hit points after `item` was used on `targets`.
pub open spec fn stats_after(
    kinds: Kinds,
    stats: Map<Entity, CombatStats>,
    item: Entity,
    targets: Seq<Entity>,
) -> Map<Entity, CombatStats> {
    match kinds.provides_healing.lookup(item) {
        Some(h) => heal_targets(stats, targets, h.heal_amount as int),
        None => stats,
    }
}

/// The waiting damage after `item` was used on `targets`.
pub open spec fn pending_after(
    kinds: Kinds,
    pending: Map<Entity, Seq<i32>>,
    item: Entity,
    targets: Seq<Entity>,
) -> Map<Entity, Seq<i32>> {
    match kinds.inflicts_damage.lookup(item) {
        Some(d) => damage_targets(pending, targets, d.damage),
        None => pending,
    }
}

/// Who is confused after `item` was used on `targets`.
pub open spec fn confused_after(
    confused: Map<Entity, Confusion>,
    item: Entity,
    targets: Seq<Entity>,
) -> Map<Entity, Confusion> {
    if confused.dom().contains(item) {
        confuse_targets(confused, targets, confused[item].duration)
    } else {
        confused
    }
}

/// What is worn after `item` was used on `targets`: the first of them
/// puts it on.
pub open spec fn equipped_after(
    kinds: Kinds,
    equipped: Map<Entity, Equipped>,
    item: Entity,
    targets: Seq<Entity>,
    bound: nat,
) -> Map<Entity, Equipped> {
    match kinds.equippable.lookup(item) {
        Some(q) => if targets.len() > 0 {
            wear(equipped, item, targets[0], q.slot, bound)
        } else {
            equipped
        },
        None => equipped,
    }
}

/// What lies in packs after `item` was used on `targets`.
pub open spec fn backpack_after(
    kinds: Kinds,
    backpack: Map<Entity, InBackpack>,
    equipped: Map<Entity, Equipped>,
    item: Entity,
    targets: Seq<Entity>,
    bound: nat,
) -> Map<Entity, InBackpack> {
    match kinds.equippable.lookup(item) {
        Some(q) => if targets.len() > 0 {
            stow(backpack, equipped, item, targets[0], q.slot, bound)
        } else {
            backpack
        },
        None => backpack,
    }
}

/// Whether a use of `item` on `targets` with the blast `blast` had an
/// effect that uses the item up: a wall fell, a target was healed, a
/// target was hurt, or the item confuses.
pub open spec fn item_used(
    kinds: Kinds,
    fx: Effects,
    item: Entity,
    targets: Seq<Entity>,
    blast: Seq<Position>,
) -> bool {
    ||| kinds.destroys_walls@.dom().contains(item) && any_wall(fx.tiles, blast)
    ||| kinds.provides_healing@.dom().contains(item) && count_in(fx.stats.dom(), targets) > 0
    ||| kinds.inflicts_damage@.dom().contains(item) && targets.len() > 0
    ||| fx.confused.dom().contains(item)
}

/// Who lives after the use: a consumable item that was used up is deleted.
pub open spec fn alive_after(kinds: Kinds, alive: Seq<bool>, item: Entity, used: bool) -> Seq<
    bool,
> {
    if used && kinds.consumables@.dom().contains(item) && item.id < alive.len() {
        alive.update(item.id as int, false)
    } else {
        alive
    }
}

/// The message for the cast, if `item` is a spell.
pub open spec fn cast_part(kinds: Kinds, item: Entity) -> Seq<Seq<char>> {
    match kinds.spells.lookup(item) {
        Some(spell) => seq![cast_message(spell.name@, spell.mana_cost as int)],
        None => Seq::empty(),
    }
}

/// One message for each healed target, if the player used the item.
pub open spec fn heal_part(
    kinds: Kinds,
    player: Entity,
    holders: Set<Entity>,
    user: Entity,
    item: Entity,
    targets: Seq<Entity>,
) -> Seq<Seq<char>> {
    match kinds.provides_healing.lookup(item) {
        Some(h) => if user == player {
            repeated(
                heal_message(name_of(kinds.names@, item), h.heal_amount as int),
                count_in(holders, targets),
            )
        } else {
            Seq::empty()
        },
        None => Seq::empty(),
    }
}

/// One message for each confused target, if the player used the item.
pub open spec fn confuse_part(
    kinds: Kinds,
    player: Entity,
    confused: Map<Entity, Confusion>,
    user: Entity,
    item: Entity,
    targets: Seq<Entity>,
) -> Seq<Seq<char>> {
    if confused.dom().contains(item) && user == player {
        Seq::new(
            targets.len(),
            |i: int|
                confuse_message(name_of(kinds.names@, item), name_of(kinds.names@, targets[i])),
        )
    } else {
        Seq::empty()
    }
}

/// The messages for taking off and putting on, if the player is the one
/// who puts the item on.
pub open spec fn equip_part(
    kinds: Kinds,
    player: Entity,
    equipped: Map<Entity, Equipped>,
    item: Entity,
    targets: Seq<Entity>,
    bound: nat,
) -> Seq<Seq<char>> {
    match kinds.equippable.lookup(item) {
        Some(q) => if targets.len() > 0 && targets[0] == player {
            equip_log(kinds.names@, equipped, item, player, q.slot, bound)
        } else {
            Seq::empty()
        },
        None => Seq::empty(),
    }
}

/// What a use that goes ahead makes of `fx`.
///
/// The targets are resolved first.  Then, each only if the item has the
/// fragment for it: walls in the blast fall; the caster pays the spell's
/// cost; each target is healed; damage is recorded for each target; each
/// target is confused; the first target puts the item on.  At the end a
/// consumable item that had an effect is deleted.
pub open spec fn resolved_use(
    kinds: Kinds,
    content: Seq<Vec<Entity>>,
    player: Entity,
    fx: Effects,
    user: Entity,
    intent: WantsToUseItem,
) -> Effects {
    let item = intent.item;
    let aoe = kinds.area_of_effect.lookup(item);
    let blast = blast_tiles(aoe, intent.target);
    let targets = resolve_targets(content, aoe, user, intent.target);
    let bound = fx.alive.len();
    Effects {
        log: fx.log + cast_part(kinds, item) + heal_part(
            kinds,
            player,
            fx.stats.dom(),
            user,
            item,
            targets,
        ) + confuse_part(kinds, player, fx.confused, user, item, targets) + equip_part(
            kinds,
            player,
            fx.equipped,
            item,
            targets,
            bound,
        ),
        tiles: tiles_after(kinds, fx.tiles, item, blast),
        stats: stats_after(kinds, fx.stats, item, targets),
        magic: magic_after(kinds, fx.magic, user, item),
        pending: pending_after(kinds, fx.pending, item, targets),
        confused: confused_after(fx.confused, item, targets),
        equipped: equipped_after(kinds, fx.equipped, item, targets, bound),
        backpack: backpack_after(kinds, fx.backpack, fx.equipped, item, targets, bound),
        alive: alive_after(kinds, fx.alive, item, item_used(kinds, fx, item, targets, blast)),
    }
}

/// What a cast that its caster cannot pay makes of `fx`: the log says so,
/// and nothing else changes.
pub open spec fn blocked_use(kinds: Kinds, fx: Effects, item: Entity) -> Effects {
    Effects { log: fx.log.push(no_mana_message(kinds.spells@[item].name@)), ..fx }
}

/// What `user` carrying out `intent` makes of `fx`: a cast that the user
/// cannot pay for is blocked, and every other use goes ahead.
pub open spec fn use_item_spec(
    kinds: Kinds,
    content: Seq<Vec<Entity>>,
    player: Entity,
    fx: Effects,
    user: Entity,
    intent: WantsToUseItem,
) -> Effects {
    if cannot_pay(kinds, fx.magic, user, intent.item) {
        blocked_use(kinds, fx, intent.item)
    } else {
        resolved_use(kinds, content, player, fx, user, intent)
    }
}

/// A use only adds to the log, and neither makes nor forgets an entity.
pub proof fn lemma_use_appends(
    kinds: Kinds,
    content: Seq<Vec<Entity>>,
    player: Entity,
    fx: Effects,
    user: Entity,
    intent: WantsToUseItem,
)
    ensures
        fx.log.is_prefix_of(use_item_spec(kinds, content, player, fx, user, intent).log),
        use_item_spec(kinds, content, player, fx, user, intent).alive.len() == fx.alive.len(),
{
}

/// Appends `message` to the log `count` times.
fn push_repeated(log: &mut GameLog, message: &String, count: usize)
    ensures
        final(log)@ == old(log)@ + repeated(message@, count as nat),
{
    let mut i: usize = 0;
    assert(log@ =~= old(log)@ + repeated(message@, 0));
    while i < count
        invariant
            0 <= i <= count,
            log@ == old(log)@ + repeated(message@, i as nat),
        decreases count - i,
    {
        log.push(message.clone());
        assert(log@ =~= old(log)@ + repeated(message@, (i + 1) as nat));
        i = i + 1;
    }
}

/// Appends one message for each of `targets` that `item` confused.
fn push_confusions(log: &mut GameLog, names: &Store<Name>, item: Entity, targets: &Vec<Entity>)
    ensures
        final(log)@ == old(log)@ + Seq::new(
            targets.len() as nat,
            |i: int| confuse_message(name_of(names@, item), name_of(names@, targets[i])),
        ),
{
    let item_name = name_text(names, item);
    let mut k: usize = 0;
    assert(log@ =~= old(log)@ + Seq::new(
        0,
        |i: int| confuse_message(name_of(names@, item), name_of(names@, targets[i])),
    ));
    while k < targets.len()
        invariant
            0 <= k <= targets.len(),
            item_name@ == name_of(names@, item),
            log@ == old(log)@ + Seq::new(
                k as nat,
                |i: int| confuse_message(name_of(names@, item), name_of(names@, targets[i])),
            ),
        decreases targets.len() - k,
    {
        let victim = name_text(names, targets[k]);
        log.push(confuse_text(item_name.as_str(), victim.as_str()));
        assert(log@ =~= old(log)@ + Seq::new(
            (k + 1) as nat,
            |i: int| confuse_message(name_of(names@, item), name_of(names@, targets[i])),
        ));
        k = k + 1;
    }
}

/// First part of a use: walls fall and mana is paid.
fn ruin_and_pay(
    kinds: &Kinds,
    user: Entity,
    item: Entity,
    blast: &Vec<Position>,
    map: &mut TileMap,
    magic: &mut Store<MagicStats>,
    log: &mut GameLog,
) -> (used: bool)
    requires
        old(map).wf(),
        forall|k: int| 0 <= k < blast.len() ==> interior(#[trigger] blast[k]),
        forall|e: Entity| #[trigger] old(magic)@.dom().contains(e) ==> old(magic)@[e].wf(),
    ensures
        final(map).tiles@ == tiles_after(*kinds, old(map).tiles@, item, blast@),
        *final(map) == (TileMap { tiles: final(map).tiles, ..*old(map) }),
        final(map).wf(),
        final(magic)@ == magic_after(*kinds, old(magic)@, user, item),
        forall|e: Entity| #[trigger] final(magic)@.dom().contains(e) ==> final(magic)@[e].wf(),
        final(log)@ == old(log)@ + cast_part(*kinds, item),
        used == (kinds.destroys_walls@.dom().contains(item) && any_wall(old(map).tiles@, blast@)),
{
    let mut used = false;
    if kinds.destroys_walls.contains(item) {
        used = destroy_walls_on(map, blast);
    }
    match kinds.spells.get(item) {
        Some(spell) => {
            log.push(cast_text(spell.name.as_str(), spell.mana_cost));
            pay_mana_of(magic, user, spell.mana_cost);
            assert(log@ =~= old(log)@ + cast_part(*kinds, item));
        },
        None => {
            assert(log@ =~= old(log)@ + cast_part(*kinds, item));
        },
    }
    used
}

/// Second part of a use: targets are healed and hurt.
fn heal_and_hurt(
    kinds: &Kinds,
    player: Entity,
    user: Entity,
    item: Entity,
    targets: &Vec<Entity>,
    stats: &mut Store<CombatStats>,
    suffering: &mut Store<SufferDamage>,
    log: &mut GameLog,
) -> (used: bool)
    requires
        forall|e: Entity| #[trigger] old(stats)@.dom().contains(e) ==> old(stats)@[e].wf(),
    ensures
        final(stats)@ == stats_after(*kinds, old(stats)@, item, targets@),
        forall|e: Entity| #[trigger] final(stats)@.dom().contains(e) ==> final(stats)@[e].wf(),
        pending_damage(final(suffering)@) == pending_after(
            *kinds,
            pending_damage(old(suffering)@),
            item,
            targets@,
        ),
        final(log)@ == old(log)@ + heal_part(
            *kinds,
            player,
            old(stats)@.dom(),
            user,
            item,
            targets@,
        ),
        used == ((kinds.provides_healing@.dom().contains(item) && count_in(
            old(stats)@.dom(),
            targets@,
        ) > 0) || (kinds.inflicts_damage@.dom().contains(item) && targets@.len() > 0)),
{
    let mut used = false;
    match kinds.provides_healing.get(item) {
        Some(h) => {
            let count = heal_each(stats, targets, h.heal_amount);
            if count > 0 {
                used = true;
            }
            if user == player {
                let name = name_text(&kinds.names, item);
                let message = heal_text(name.as_str(), h.heal_amount);
                push_repeated(log, &message, count);
            } else {
                assert(log@ =~= old(log)@ + Seq::<Seq<char>>::empty());
            }
        },
        None => {
            assert(log@ =~= old(log)@ + Seq::<Seq<char>>::empty());
        },
    }
    match kinds.inflicts_damage.get(item) {
        Some(d) => {
            damage_each(suffering, targets, d.damage);
            if targets.len() > 0 {
                used = true;
            }
        },
        None => {},
    }
    used
}

/// Third part of a use: targets are confused and the item is put on.
fn confuse_and_equip(
    kinds: &Kinds,
    player: Entity,
    user: Entity,
    item: Entity,
    targets: &Vec<Entity>,
    bound: usize,
    confused: &mut Store<Confusion>,
    equipped: &mut Store<Equipped>,
    backpack: &mut Store<InBackpack>,
    log: &mut GameLog,
) -> (used: bool)
    ensures
        final(confused)@ == confused_after(old(confused)@, item, targets@),
        final(equipped)@ == equipped_after(*kinds, old(equipped)@, item, targets@, bound as nat),
        final(backpack)@ == backpack_after(
            *kinds,
            old(backpack)@,
            old(equipped)@,
            item,
            targets@,
            bound as nat,
        ),
        final(log)@ == old(log)@ + confuse_part(
            *kinds,
            player,
            old(confused)@,
            user,
            item,
            targets@,
        ) + equip_part(*kinds, player, old(equipped)@, item, targets@, bound as nat),
        used == old(confused)@.dom().contains(item),
{
    let mut used = false;
    let confuses = match confused.get(item) {
        Some(c) => Some(*c),
        None => None,
    };
    match confuses {
        Some(c) => {
            used = true;
            if user == player {
                push_confusions(log, &kinds.names, item, targets);
            } else {
                assert(log@ =~= old(log)@ + Seq::<Seq<char>>::empty());
            }
            confuse_each(confused, targets, c.duration);
        },
        None => {
            assert(log@ =~= old(log)@ + Seq::<Seq<char>>::empty());
        },
    }
    let ghost log1 = log@;
    match kinds.equippable.get(item) {
        Some(q) => {
            if targets.len() > 0 {
                let owner = targets[0];
                equip_item(
                    &kinds.names,
                    equipped,
                    backpack,
                    log,
                    item,
                    owner,
                    q.slot,
                    bound,
                    owner == player,
                );
            } else {
                assert(log@ =~= log1 + Seq::<Seq<char>>::empty());
            }
        },
        None => {
            assert(log@ =~= log1 + Seq::<Seq<char>>::empty());
        },
    }
    used
}

/// Carries out one use: `user` uses the item of `intent`.
pub fn use_item(world: &mut World, user: Entity, intent: WantsToUseItem)
    requires
        old(world).wf(),
    ensures
        final(world).effects() == use_item_spec(
            old(world).kinds,
            old(world).map.tile_content@,
            old(world).player,
            old(world).effects(),
            user,
            intent,
        ),
        final(world).same_but_effects(old(world)),
        final(world).intents == old(world).intents,
        final(world).wf(),
{
    let item = intent.item;
    let player = world.player;
    let bound = world.entities.bound();
    let unpaid = match world.kinds.spells.get(item) {
        Some(spell) => {
            if mana_held(&world.magic_stats, user) < spell.mana_cost {
                Some(no_mana_text(spell.name.as_str()))
            } else {
                None
            }
        },
        None => None,
    };
    match unpaid {
        Some(message) => {
            world.log.push(message);
            return ;
        },
        None => {},
    }
    let aoe = match world.kinds.area_of_effect.get(item) {
        Some(a) => Some(*a),
        None => None,
    };
    let blast = find_blast_tiles(aoe, intent.target);
    let targets = find_targets(&world.map, aoe, user, intent.target, &blast);
    let used_a = ruin_and_pay(
        &world.kinds,
        user,
        item,
        &blast,
        &mut world.map,
        &mut world.magic_stats,
        &mut world.log,
    );
    let used_b = heal_and_hurt(
        &world.kinds,
        player,
        user,
        item,
        &targets,
        &mut world.combat_stats,
        &mut world.suffer_damage,
        &mut world.log,
    );
    let used_c = confuse_and_equip(
        &world.kinds,
        player,
        user,
        item,
        &targets,
        bound,
        &mut world.confused,
        &mut world.equipped,
        &mut world.in_backpack,
        &mut world.log,
    );
    if (used_a || used_b || used_c) && world.kinds.consumables.contains(item) {
        world.entities.delete(item);
    }
}

} // verus!
