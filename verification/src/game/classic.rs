//! The classic single-player game mode: its inputs and scheduled events.

use vstd::prelude::*;
use crate::grid::pos::Pos;

verus! {

/// An input of the player.
#[derive(Debug, Clone, Copy, PartialEq, Eq, Hash, Structural)]
pub enum InputAction {
    ExploreTile { tile: Pos },
}

/// An event that the game schedules for later.
#[derive(Debug, Clone, Copy, PartialEq, Eq, Hash, Structural)]
pub enum SchedEvent {
    GameOverOutOfTime,
}

} // verus!
