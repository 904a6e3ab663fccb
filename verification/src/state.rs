//! The game state and the run loop's state machine.
//!
//! A tick runs to its end inside the library, with one exception: a
//! monster that chases the player needs a path, and finding paths is the
//! host's work.  A tick that comes to such a monster stops and hands out a
//! request; the host answers it with `path_found`, which goes on with the
//! tick and may stop again at the next chaser.

use crate::components::{WantsToDropItem, WantsToRemoveItem, WantsToUseItem};
use crate::damage_system::{buried, delete_the_dead, harmed, DamageSystem};
use crate::geometry::Position;
use crate::gui::{
    carried, drop_item_menu, game_over, menu_answer, ranged_target, remove_item_menu,
    show_inventory, target_answer, worn, ItemMenuResult,
};
use crate::input::Input;
use crate::inventory_system::{
    collected, dropped, drunk, taken_off, used, ItemCollectionSystem, ItemDropSystem,
    ItemRemoveSystem, ItemUseSystem, PotionUseSystem,
};
use crate::map::{TileMap, TILE_COUNT};
use crate::map_indexing_system::{reindexed, MapIndexingSystem};
use crate::melee_combat_system::{fought, MeleeCombatSystem};
use crate::monster_ai_system::{followed, passed, MonsterAI, PathRequest};
use crate::player::{carried_out, command_for, player_input, state_after};
use crate::fresh_index::{
    lemma_concluded_clears_the_gone, lemma_turn_end_clears_the_gone, none_gone_stands,
};
use crate::pools::{
    lemma_finished_keeps_pools, lemma_resumed_keeps_pools, lemma_run_keeps_pools, pools_kept,
};
use crate::run_state::{MainMenuSelection, RunState};
use crate::visibility_system::{saw, VisibilitySystem};
use crate::store::Entity;
use crate::world::World;
use vstd::prelude::*;

verus! {

/// The game: the world, and the monster turn that waits for a path, if
/// the tick is suspended in one.
pub struct State {
    pub ecs: World,
    pub waiting: Option<PathRequest>,
}

/// Width and height of the level, as the bound of the player's steps.
pub fn world_size() -> (size: Position)
    ensures
        size == (Position { x: 66, y: 43 }),
{
    Position { x: 66, y: 43 }
}

/// The run state that follows a turn: the first tick and the monsters'
/// turn hand over to the player, the player's turn to the monsters.
pub open spec fn next_turn(state: RunState) -> RunState {
    match state {
        RunState::PreRun => RunState::AwaitingInput,
        RunState::PlayerTurn => RunState::MonsterTurn,
        RunState::MonsterTurn => RunState::AwaitingInput,
        other => other,
    }
}

/// The run state is one in which the systems run.
pub open spec fn is_turn(state: RunState) -> bool {
    state == RunState::PreRun || state == RunState::PlayerTurn || state == RunState::MonsterTurn
}

/// `after` is `before` with the rest of the systems run, once the
/// monsters have had their turn: the index is rebuilt; hits, damage,
/// pickups, uses, drinks, drops and takings off are carried out, in this
/// order; what was deleted on the way is cleared away.  The turn has not
/// passed on yet and the dead are not buried: who fell to no hit points
/// still stands there with none.
pub open spec fn concluded(before: &World, after: &World) -> bool {
    exists|
        w1: World,
        w2: World,
        w3: World,
        w4: World,
        w5: World,
        w6: World,
        w7: World,
        w8: World,
    |
        {
            &&& #[trigger] reindexed(before, &w1)
            &&& #[trigger] fought(&w1, &w2)
            &&& #[trigger] harmed(&w2, &w3)
            &&& #[trigger] collected(&w3, &w4)
            &&& #[trigger] used(&w4, &w5)
            &&& #[trigger] drunk(&w5, &w6)
            &&& #[trigger] dropped(&w6, &w7)
            &&& #[trigger] taken_off(&w7, &w8)
            &&& after.purged_from(&w8)
        }
}

/// The log is only ever added to: whatever the rest of a tick does, the
/// messages that were there stay, in their order.
pub proof fn lemma_concluded_keeps_log(before: &World, after: &World)
    requires
        concluded(before, after),
    ensures
        before.log@.is_prefix_of(after.log@),
{
    let (w1, w2, w3, w4, w5, w6, w7, w8) = choose|
        w1: World,
        w2: World,
        w3: World,
        w4: World,
        w5: World,
        w6: World,
        w7: World,
        w8: World,
    |
        {
            &&& #[trigger] reindexed(before, &w1)
            &&& #[trigger] fought(&w1, &w2)
            &&& #[trigger] harmed(&w2, &w3)
            &&& #[trigger] collected(&w3, &w4)
            &&& #[trigger] used(&w4, &w5)
            &&& #[trigger] drunk(&w5, &w6)
            &&& #[trigger] dropped(&w6, &w7)
            &&& #[trigger] taken_off(&w7, &w8)
            &&& after.purged_from(&w8)
        };
    assert(w3.log@ == before.log@);
    assert(w3.log@.is_prefix_of(w4.log@));
    crate::inventory_system::lemma_using_appends(
        w4.kinds,
        w4.map.tile_content@,
        w4.player,
        w4.effects(),
        w4.intents.use_item@,
        w4.entities.alive.len() as nat,
    );
    assert(w4.log@.is_prefix_of(w5.log@));
    crate::inventory_system::lemma_drinking_appends(
        w5.kinds,
        w5.player,
        w5.drinking(),
        w5.intents.drink@,
        w5.entities.alive.len() as nat,
    );
    assert(w5.log@.is_prefix_of(w6.log@));
    assert(w6.log@.is_prefix_of(w7.log@));
    assert(w7.log@ == after.log@);
}

/// A wish lives for one tick at most: when a tick is concluded nobody
/// wants anything any more.
pub proof fn lemma_concluded_clears_intents(before: &World, after: &World)
    requires
        concluded(before, after),
    ensures
        after.intents.is_empty(),
{
    let (w1, w2, w3, w4, w5, w6, w7, w8) = choose|
        w1: World,
        w2: World,
        w3: World,
        w4: World,
        w5: World,
        w6: World,
        w7: World,
        w8: World,
    |
        {
            &&& #[trigger] reindexed(before, &w1)
            &&& #[trigger] fought(&w1, &w2)
            &&& #[trigger] harmed(&w2, &w3)
            &&& #[trigger] collected(&w3, &w4)
            &&& #[trigger] used(&w4, &w5)
            &&& #[trigger] drunk(&w5, &w6)
            &&& #[trigger] dropped(&w6, &w7)
            &&& #[trigger] taken_off(&w7, &w8)
            &&& after.purged_from(&w8)
        };
    assert(w8.intents.is_empty());
    assert(after.intents.melee@ =~= Map::empty());
    assert(after.intents.pickup@ =~= Map::empty());
    assert(after.intents.drop_item@ =~= Map::empty());
    assert(after.intents.use_item@ =~= Map::empty());
    assert(after.intents.drink@ =~= Map::empty());
    assert(after.intents.remove_item@ =~= Map::empty());
}

/// `after` is what the tick comes to from `before` when the monsters from
/// `from` on still have their turn to take: either it stops at a monster
/// that needs a path, which `request` asks for and `after` remembers, or
/// the monsters get through and the rest of the systems run.
pub open spec fn continued(
    before: &World,
    after: &State,
    from: nat,
    request: Option<PathRequest>,
) -> bool {
    exists|w: World| #[trigger]
        passed(before, &w, from, request) && after.waiting == request && match request {
            Some(_) => after.ecs == w,
            None => concluded(&w, &after.ecs),
        }
}

/// `after` is what a run of the systems from the start makes of `before`:
/// everyone looks, and then the monsters and the other systems have their
/// turn as far as they get without a path.
pub open spec fn ran(before: &World, after: &State, request: Option<PathRequest>) -> bool {
    exists|w: World| #[trigger] saw(before, &w) && continued(&w, after, 0, request)
}

/// `after` is what the run of the systems comes to from `before` once
/// `monster` has followed the path `steps`: the monsters after it and the
/// other systems have their turn as far as they get without a path.
pub open spec fn resumed(
    before: &World,
    monster: Entity,
    steps: Seq<usize>,
    after: &State,
    request: Option<PathRequest>,
) -> bool {
    exists|w: World| #[trigger]
        followed(before, &w, monster, steps) && continued(
            &w,
            after,
            (monster.id + 1) as nat,
            request,
        )
}

/// `after` is `before` with the turn ended: the turn passes on and the
/// dead are buried.
pub open spec fn turn_ended(before: &World, after: &World) -> bool {
    buried(&(World { run_state: next_turn(before.run_state), ..*before }), after)
}

/// `after` is what a tick makes of `mid`, where the run of the systems has
/// come to: while a path is asked for nothing more happens, and once
/// none is the turn ends.
pub open spec fn finished(mid: &State, after: &State, request: Option<PathRequest>) -> bool {
    match request {
        Some(_) => *after == *mid,
        None => after.waiting is None && turn_ended(&mid.ecs, &after.ecs),
    }
}

/// An item menu's answer carried out: a selected item becomes the wish
/// `wish` of the player and the player's turn begins, a cancelled menu
/// gives the turn back, and an open menu stays open.
pub open spec fn menu_turn(before: &World, answer: ItemMenuResult) -> RunState {
    match answer {
        ItemMenuResult::Cancel => RunState::AwaitingInput,
        ItemMenuResult::NoResponse => before.run_state,
        ItemMenuResult::Selected => RunState::PlayerTurn,
    }
}

/// `mid` is what a tick outside the turns makes of `before`, up to the
/// burial of the dead.
pub open spec fn answered(before: &World, mid: &World, input: Input) -> bool {
    let n = before.entities.alive.len() as nat;
    match before.run_state {
        RunState::AwaitingInput => {
            &&& mid.run_state == state_after(before, command_for(input.key))
            &&& carried_out(
                before,
                &(World { run_state: before.run_state, ..*mid }),
                command_for(input.key),
                Position { x: 66, y: 43 },
            )
        },
        RunState::ShowInventory => {
            let answer = menu_answer(input.key, carried(before, before.player, n));
            match answer {
                (ItemMenuResult::Selected, Some(item)) => {
                    &&& mid.intents.use_item@ == before.intents.use_item@.insert(
                        before.player,
                        WantsToUseItem { item, target: None },
                    )
                    &&& *mid == (World {
                        run_state: RunState::PlayerTurn,
                        intents: crate::world::Intents {
                            use_item: mid.intents.use_item,
                            ..before.intents
                        },
                        ..*before
                    })
                },
                (result, _) => *mid == (World { run_state: menu_turn(before, result), ..*before }),
            }
        },
        RunState::ShowDropItem => {
            let answer = menu_answer(input.key, carried(before, before.player, n));
            match answer {
                (ItemMenuResult::Selected, Some(item)) => {
                    &&& mid.intents.drop_item@ == before.intents.drop_item@.insert(
                        before.player,
                        WantsToDropItem { item },
                    )
                    &&& *mid == (World {
                        run_state: RunState::PlayerTurn,
                        intents: crate::world::Intents {
                            drop_item: mid.intents.drop_item,
                            ..before.intents
                        },
                        ..*before
                    })
                },
                (result, _) => *mid == (World { run_state: menu_turn(before, result), ..*before }),
            }
        },
        RunState::ShowRemoveItem => {
            let answer = menu_answer(input.key, worn(before, before.player, n));
            match answer {
                (ItemMenuResult::Selected, Some(item)) => {
                    &&& mid.intents.remove_item@ == before.intents.remove_item@.insert(
                        before.player,
                        WantsToRemoveItem { item },
                    )
                    &&& *mid == (World {
                        run_state: RunState::PlayerTurn,
                        intents: crate::world::Intents {
                            remove_item: mid.intents.remove_item,
                            ..before.intents
                        },
                        ..*before
                    })
                },
                (result, _) => *mid == (World { run_state: menu_turn(before, result), ..*before }),
            }
        },
        RunState::ShowTargeting { range, targetable } => {
            let answer = target_answer(before, input.mouse_pos, input.left_click, range as int);
            match answer {
                (ItemMenuResult::Selected, Some(point)) => {
                    &&& mid.intents.use_item@ == before.intents.use_item@.insert(
                        before.player,
                        WantsToUseItem { item: targetable, target: Some(point) },
                    )
                    &&& *mid == (World {
                        run_state: RunState::PlayerTurn,
                        intents: crate::world::Intents {
                            use_item: mid.intents.use_item,
                            ..before.intents
                        },
                        ..*before
                    })
                },
                (result, _) => *mid == (World { run_state: menu_turn(before, result), ..*before }),
            }
        },
        RunState::GameOver => *mid == (World {
            run_state: if input.key is Some {
                RunState::MainMenu { menu_selection: MainMenuSelection::NewGame }
            } else {
                RunState::GameOver
            },
            ..*before
        }),
        _ => *mid == *before,
    }
}

impl State {
    /// The world is well formed, and a monster that waits for a path is
    /// one of the entities.
    pub open spec fn wf(&self) -> bool {
        &&& self.ecs.wf()
        &&& self.waiting is Some ==> (self.waiting->0).monster.id < self.ecs.entities.alive.len()
    }

    /// Whether the game is well formed.
    pub fn check(&self) -> (ok: bool)
        ensures
            ok == self.wf(),
    {
        let known = match self.waiting {
            Some(asked) => asked.monster.id < self.ecs.entities.bound(),
            None => true,
        };
        known && self.ecs.check()
    }

    /// A game on the level `map`, before its first tick.
    pub fn new(map: TileMap) -> (gs: State)
        requires
            map.wf(),
        ensures
            gs.wf(),
            gs.waiting is None,
            gs.ecs.is_new(map),
    {
        State { ecs: World::new(map), waiting: None }
    }

    /// Runs the rest of the systems once the monsters have had their turn.
    fn conclude(&mut self)
        requires
            old(self).ecs.wf(),
        ensures
            concluded(&old(self).ecs, &final(self).ecs),
            none_gone_stands(&final(self).ecs),
            final(self).waiting == old(self).waiting,
            final(self).ecs.wf(),
            final(self).ecs.map.revealed_tiles@ == old(self).ecs.map.revealed_tiles@,
            old(self).ecs.log@.is_prefix_of(final(self).ecs.log@),
    {
        let mut mapindex = MapIndexingSystem {  };
        mapindex.run(&mut self.ecs);
        let ghost w1 = self.ecs;
        let mut melee = MeleeCombatSystem {  };
        melee.run(&mut self.ecs);
        let ghost w2 = self.ecs;
        let mut damage = DamageSystem {  };
        damage.run(&mut self.ecs);
        let ghost w3 = self.ecs;
        let mut pickup = ItemCollectionSystem {  };
        pickup.run(&mut self.ecs);
        let ghost w4 = self.ecs;
        let mut items = ItemUseSystem {  };
        items.run(&mut self.ecs);
        let ghost w5 = self.ecs;
        let mut potions = PotionUseSystem {  };
        potions.run(&mut self.ecs);
        let ghost w6 = self.ecs;
        let mut item_drop_system = ItemDropSystem {  };
        item_drop_system.run(&mut self.ecs);
        let ghost w7 = self.ecs;
        let mut item_remove_system = ItemRemoveSystem {  };
        item_remove_system.run(&mut self.ecs);
        let ghost w8 = self.ecs;
        self.ecs.maintain();
        proof {
            assert(reindexed(&old(self).ecs, &w1));
            assert(fought(&w1, &w2));
            assert(harmed(&w2, &w3));
            assert(collected(&w3, &w4));
            assert(used(&w4, &w5));
            assert(drunk(&w5, &w6));
            assert(dropped(&w6, &w7));
            assert(taken_off(&w7, &w8));
            assert(self.ecs.purged_from(&w8));
            lemma_concluded_clears_the_gone(&old(self).ecs, &self.ecs);
            lemma_concluded_keeps_log(&old(self).ecs, &self.ecs);
        }
    }

    /// Gives the monsters from `from` on their turn and then runs the rest
    /// of the systems, unless one of the monsters needs a path.
    fn continue_turn(&mut self, from: usize) -> (request: Option<PathRequest>)
        requires
            old(self).ecs.wf(),
        ensures
            continued(&old(self).ecs, final(self), from as nat, request),
            request is None ==> none_gone_stands(&final(self).ecs),
            final(self).wf(),
            final(self).ecs.map.revealed_tiles@ == old(self).ecs.map.revealed_tiles@,
            old(self).ecs.log@.is_prefix_of(final(self).ecs.log@),
    {
        let request = MonsterAI::run(&mut self.ecs, from);
        let ghost w = self.ecs;
        self.waiting = request;
        match request {
            Some(_) => {},
            None => {
                self.conclude();
            },
        }
        assert(passed(&old(self).ecs, &w, from as nat, request));
        request
    }

    /// Runs the systems of one turn in their fixed order: sight, the
    /// monsters, the index, hits, damage, and the handling of items; at
    /// the end what was deleted is cleared away.  If a monster needs a
    /// path the run stops there and asks for it.  The turn does not pass
    /// on here and nobody is buried: that is the tick's to do.
    pub fn run_systems(&mut self) -> (request: Option<PathRequest>)
        requires
            old(self).ecs.wf(),
        ensures
            ran(&old(self).ecs, final(self), request),
            request is None ==> none_gone_stands(&final(self).ecs),
            final(self).wf(),
            pools_kept(&old(self).ecs, &final(self).ecs),
            forall|i: int|
                0 <= i < TILE_COUNT && old(self).ecs.map.revealed_tiles[i]
                    ==> final(self).ecs.map.revealed_tiles[i],
            old(self).ecs.log@.is_prefix_of(final(self).ecs.log@),
    {
        let mut vis = VisibilitySystem {  };
        vis.run(&mut self.ecs);
        let ghost w = self.ecs;
        let request = self.continue_turn(0);
        assert(saw(&old(self).ecs, &w));
        proof {
            lemma_run_keeps_pools(&old(self).ecs, self, request);
        }
        request
    }

    /// Ends the turn: the turn passes on and the dead are buried.
    pub fn end_turn(&mut self)
        requires
            old(self).ecs.wf(),
        ensures
            turn_ended(&old(self).ecs, &final(self).ecs),
            none_gone_stands(&final(self).ecs),
            final(self).waiting == old(self).waiting,
            final(self).ecs.wf(),
            pools_kept(&old(self).ecs, &final(self).ecs),
            final(self).ecs.map == old(self).ecs.map,
            final(self).ecs.log == old(self).ecs.log,
    {
        self.ecs.run_state = match self.ecs.run_state {
            RunState::PreRun => RunState::AwaitingInput,
            RunState::PlayerTurn => RunState::MonsterTurn,
            RunState::MonsterTurn => RunState::AwaitingInput,
            other => other,
        };
        delete_the_dead(&mut self.ecs);
        proof {
            lemma_turn_end_clears_the_gone(&old(self).ecs, &self.ecs);
        }
    }

    /// Takes the path that the waiting monster asked for, moves the
    /// monster along it and goes on with the systems.  Once they are
    /// through, the turn ends.  `steps` lists the tiles of the path from
    /// the monster's own tile on; an empty list says that there is no path.
    pub fn path_found(&mut self, steps: &Vec<usize>) -> (request: Option<PathRequest>)
        requires
            old(self).wf(),
            old(self).waiting is Some,
        ensures
            exists|mid: State| #[trigger]
                resumed(&old(self).ecs, (old(self).waiting->0).monster, steps@, &mid, request)
                    && finished(&mid, final(self), request),
            request is None ==> none_gone_stands(&final(self).ecs),
            final(self).wf(),
            pools_kept(&old(self).ecs, &final(self).ecs),
            final(self).ecs.map.revealed_tiles@ == old(self).ecs.map.revealed_tiles@,
            old(self).ecs.log@.is_prefix_of(final(self).ecs.log@),
    {
        match self.waiting {
            Some(asked) => {
                MonsterAI::follow(&mut self.ecs, asked.monster, steps);
                let ghost w = self.ecs;
                let request = self.continue_turn(asked.monster.id + 1);
                let ghost mid = *self;
                assert(followed(&old(self).ecs, &w, asked.monster, steps@));
                assert(resumed(&old(self).ecs, asked.monster, steps@, &mid, request));
                if request.is_none() {
                    self.end_turn();
                }
                assert(finished(&mid, self, request));
                proof {
                    lemma_resumed_keeps_pools(
                        &old(self).ecs,
                        asked.monster,
                        steps@,
                        &mid,
                        request,
                    );
                    lemma_finished_keeps_pools(&mid, self, request);
                }
                request
            },
            None => None,
        }
    }

    /// Answers the input of a tick outside the turns.
    fn answer(&mut self, input: &Input)
        requires
            old(self).ecs.wf(),
            !is_turn(old(self).ecs.run_state),
        ensures
            answered(&old(self).ecs, &final(self).ecs, *input),
            final(self).waiting == old(self).waiting,
            final(self).ecs.wf(),
            final(self).ecs.map.revealed_tiles@ == old(self).ecs.map.revealed_tiles@,
            old(self).ecs.log@.is_prefix_of(final(self).ecs.log@),
    {
        let player = self.ecs.player;
        match self.ecs.run_state {
            RunState::AwaitingInput => {
                let newrunstate = player_input(self, input.key, world_size());
                self.ecs.run_state = newrunstate;
            },
            RunState::ShowInventory => {
                let result = show_inventory(self, input.key);
                match result {
                    (ItemMenuResult::Cancel, _) => {
                        self.ecs.run_state = RunState::AwaitingInput;
                    },
                    (ItemMenuResult::NoResponse, _) => {},
                    (ItemMenuResult::Selected, Some(item)) => {
                        self.ecs.intents.use_item.insert(
                            player,
                            WantsToUseItem { item, target: None },
                        );
                        self.ecs.run_state = RunState::PlayerTurn;
                    },
                    (ItemMenuResult::Selected, None) => {
                        self.ecs.run_state = RunState::PlayerTurn;
                    },
                }
            },
            RunState::ShowDropItem => {
                let result = drop_item_menu(self, input.key);
                match result {
                    (ItemMenuResult::Cancel, _) => {
                        self.ecs.run_state = RunState::AwaitingInput;
                    },
                    (ItemMenuResult::NoResponse, _) => {},
                    (ItemMenuResult::Selected, Some(item)) => {
                        self.ecs.intents.drop_item.insert(player, WantsToDropItem { item });
                        self.ecs.run_state = RunState::PlayerTurn;
                    },
                    (ItemMenuResult::Selected, None) => {
                        self.ecs.run_state = RunState::PlayerTurn;
                    },
                }
            },
            RunState::ShowRemoveItem => {
                let result = remove_item_menu(self, input.key);
                match result {
                    (ItemMenuResult::Cancel, _) => {
                        self.ecs.run_state = RunState::AwaitingInput;
                    },
                    (ItemMenuResult::NoResponse, _) => {},
                    (ItemMenuResult::Selected, Some(item)) => {
                        self.ecs.intents.remove_item.insert(player, WantsToRemoveItem { item });
                        self.ecs.run_state = RunState::PlayerTurn;
                    },
                    (ItemMenuResult::Selected, None) => {
                        self.ecs.run_state = RunState::PlayerTurn;
                    },
                }
            },
            RunState::ShowTargeting { range, targetable } => {
                let radius = match self.ecs.kinds.area_of_effect.get(targetable) {
                    Some(aoe) => aoe.radius,
                    None => 0,
                };
                let result = ranged_target(self, input.mouse_pos, input.left_click, range, radius);
                match result {
                    (ItemMenuResult::Cancel, _) => {
                        self.ecs.run_state = RunState::AwaitingInput;
                    },
                    (ItemMenuResult::NoResponse, _) => {},
                    (ItemMenuResult::Selected, Some(point)) => {
                        self.ecs.intents.use_item.insert(
                            player,
                            WantsToUseItem { item: targetable, target: Some(point) },
                        );
                        self.ecs.run_state = RunState::PlayerTurn;
                    },
                    (ItemMenuResult::Selected, None) => {
                        self.ecs.run_state = RunState::PlayerTurn;
                    },
                }
            },
            RunState::GameOver => {
                match game_over(input.key) {
                    crate::gui::GameOverResult::NoSelection => {},
                    crate::gui::GameOverResult::QuitToMenu => {
                        self.ecs.run_state = RunState::MainMenu {
                            menu_selection: MainMenuSelection::NewGame,
                        };
                    },
                }
            },
            _ => {},
        }
    }

    /// One tick of the run loop.  In a turn state the systems run, and
    /// once they are through the turn passes on and the dead are buried;
    /// in any other state the input is answered and the dead are buried.
    /// The result asks for a path if the tick has stopped at a monster.
    pub fn tick(&mut self, input: &Input) -> (request: Option<PathRequest>)
        requires
            old(self).ecs.wf(),
            old(self).waiting is None,
        ensures
            is_turn(old(self).ecs.run_state) ==> exists|mid: State| #[trigger]
                ran(&old(self).ecs, &mid, request) && finished(&mid, final(self), request),
            !is_turn(old(self).ecs.run_state) ==> request is None && final(self).waiting is None
                && exists|mid: World| #[trigger]
                answered(&old(self).ecs, &mid, *input) && buried(&mid, &final(self).ecs),
            request is None ==> none_gone_stands(&final(self).ecs),
            final(self).wf(),
            pools_kept(&old(self).ecs, &final(self).ecs),
            forall|i: int|
                0 <= i < TILE_COUNT && old(self).ecs.map.revealed_tiles[i]
                    ==> final(self).ecs.map.revealed_tiles[i],
            old(self).ecs.log@.is_prefix_of(final(self).ecs.log@),
    {
        match self.ecs.run_state {
            RunState::PreRun | RunState::PlayerTurn | RunState::MonsterTurn => {
                let request = self.run_systems();
                let ghost mid = *self;
                if request.is_none() {
                    self.end_turn();
                }
                assert(ran(&old(self).ecs, &mid, request));
                assert(finished(&mid, self, request));
                proof {
                    lemma_finished_keeps_pools(&mid, self, request);
                }
                request
            },
            _ => {
                self.answer(input);
                let ghost mid = self.ecs;
                delete_the_dead(&mut self.ecs);
                assert(answered(&old(self).ecs, &mid, *input));
                None
            },
        }
    }
}

} // verus!
