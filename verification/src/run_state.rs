//! The states of the run loop.

use crate::store::Entity;
use vstd::prelude::*;

verus! {

/// An entry of the main menu.
#[derive(Clone, Copy, PartialEq, Eq, Structural, Debug)]
pub enum MainMenuSelection {
    NewGame,
    LoadGame,
    Quit,
}

/// Whose turn it is, or which dialog is open.
#[derive(Clone, Copy, PartialEq, Eq, Structural, Debug)]
pub enum RunState {
    AwaitingInput,
    PreRun,
    PlayerTurn,
    MonsterTurn,
    ShowInventory,
    ShowDropItem,
    ShowRemoveItem,
    ShowTargeting { range: i32, targetable: Entity },
    MainMenu { menu_selection: MainMenuSelection },
    NextLevel,
    SaveGame,
    GameOver,
}

} // verus!
