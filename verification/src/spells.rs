//! The spells that can be learnt.

use crate::components::{
    AreaOfEffect, DestroysWalls, InflictsDamage, KnownSpell, Spell,
};
use crate::store::Entity;
use crate::world::{Kinds, World};
use vstd::prelude::*;
use vstd::string::*;

verus! {

/// `spell` is the fireball as its caster knows it.
pub open spec fn is_fireball(spell: &KnownSpell) -> bool {
    &&& spell.name@ == "fireball"@
    &&& spell.mana_cost == 1
    &&& spell.components.len() == 4
    &&& spell.components[0]@ == "ranged"@
    &&& spell.components[1]@ == "deals damage"@
    &&& spell.components[2]@ == "destroys walls"@
    &&& spell.components[3]@ == "area of effect"@
}

/// `after` is `before` with one more entity, `e`, which is the fireball:
/// a spell of range 6 for 1 mana that deals 20 damage within a radius of
/// 3 and breaks walls.
pub open spec fn has_fireball(before: &World, after: &World, e: Entity) -> bool {
    &&& e.id == before.entities.alive.len()
    &&& after.entities.alive@ == before.entities.alive@.push(true)
    &&& after.kinds.inflicts_damage@ == before.kinds.inflicts_damage@.insert(
        e,
        InflictsDamage { damage: 20 },
    )
    &&& after.kinds.area_of_effect@ == before.kinds.area_of_effect@.insert(
        e,
        AreaOfEffect { radius: 3 },
    )
    &&& after.kinds.destroys_walls@ == before.kinds.destroys_walls@.insert(e, DestroysWalls {  })
    &&& after.kinds.spells@.dom() == before.kinds.spells@.dom().insert(e)
    &&& forall|o: Entity|
        o != e && before.kinds.spells@.dom().contains(o) ==> #[trigger] after.kinds.spells@[o]
            == before.kinds.spells@[o]
    &&& after.kinds.spells@[e].name@ == "fireball"@
    &&& after.kinds.spells@[e].range == 6
    &&& after.kinds.spells@[e].mana_cost == 1
    &&& *after == (World {
        entities: after.entities,
        kinds: Kinds {
            inflicts_damage: after.kinds.inflicts_damage,
            area_of_effect: after.kinds.area_of_effect,
            destroys_walls: after.kinds.destroys_walls,
            spells: after.kinds.spells,
            ..before.kinds
        },
        ..*before
    })
}

/// Makes the fireball spell in `ecs` and hands back what a caster who
/// learns it knows of it.
pub fn fireball(ecs: &mut World) -> (known: KnownSpell)
    ensures
        is_fireball(&known),
        has_fireball(old(ecs), final(ecs), Entity { id: old(ecs).entities.alive.len() }),
{
    let e = ecs.create_entity();
    ecs.kinds.inflicts_damage.insert(e, InflictsDamage { damage: 20 });
    ecs.kinds.area_of_effect.insert(e, AreaOfEffect { radius: 3 });
    ecs.kinds.destroys_walls.insert(e, DestroysWalls {  });
    ecs.kinds.spells.insert(
        e,
        Spell { name: String::from_str("fireball"), range: 6, mana_cost: 1 },
    );
    assert(ecs.kinds.spells@.dom() =~= old(ecs).kinds.spells@.dom().insert(e));
    let mut components: Vec<String> = Vec::new();
    components.push(String::from_str("ranged"));
    components.push(String::from_str("deals damage"));
    components.push(String::from_str("destroys walls"));
    components.push(String::from_str("area of effect"));
    KnownSpell { name: String::from_str("fireball"), mana_cost: 1, components }
}

} // verus!
