//! A falling-piece merge puzzle engine: pieces drop into a container, equal
//! pieces that touch merge into the next tier, and a settled piece beyond the
//! container bounds ends the run.
//!
//! All quantities are integers. Lengths, velocities, masses and the mass
//! multiplier are counted in thousandths of a unit; time is counted in
//! microseconds.
//!
//! The physics is not part of this library. It is taken in as the positions
//! and velocities of the fruits and as the list of collisions that began in
//! a tick; see `game::session`.

use vstd::prelude::*;

pub mod constants;
pub mod game;
pub mod resources;

verus! {

/// Screen that the program shows.
#[derive(Clone, Copy, Debug, PartialEq, Eq, Hash, Structural)]
pub enum AppState {
    StartMenu,
    InGame,
    GameOverMenu,
}

impl Default for AppState {
    fn default() -> (state: AppState)
        ensures
            state == AppState::StartMenu,
    {
        AppState::StartMenu
    }
}

} // verus!
