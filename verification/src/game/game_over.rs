//! The end of a run: a settled fruit beyond the container.

use vstd::prelude::*;
use crate::constants::{CONTAINER_THICKNESS, CONTAINER_WIDTH, GAME_OVER_HEIGHT};
use crate::game::{Phase, Piece};
use crate::AppState;

verus! {

/// Above the rim, or beyond the outer face of a side wall.
pub open spec fn out_of_bounds(piece: Piece) -> bool {
    ||| piece.y > GAME_OVER_HEIGHT
    ||| piece.x > CONTAINER_WIDTH / 2 + CONTAINER_THICKNESS
    ||| piece.x < -(CONTAINER_WIDTH / 2) - CONTAINER_THICKNESS
}

/// A live settled fruit that is out of bounds. A fruit that is still spawning
/// never spills, wherever it is: it enters above the rim.
pub open spec fn spills(piece: Piece) -> bool {
    &&& !piece.mark_for_delete
    &&& piece.phase == Phase::Settled
    &&& out_of_bounds(piece)
}

pub open spec fn any_spills(pieces: Seq<Piece>) -> bool {
    exists|k: int| 0 <= k < pieces.len() && spills(#[trigger] pieces[k])
}

/// Ends the run if a fruit spills. Returns whether the run ended now: a run
/// that is not under way, or is already over, is left as it is.
pub fn check_game_over(pieces: &Vec<Piece>, next_state: &mut AppState) -> (ended: bool)
    ensures
        ended == (*old(next_state) == AppState::InGame && any_spills(pieces@)),
        *final(next_state) == if ended {
            AppState::GameOverMenu
        } else {
            *old(next_state)
        },
{
    if *next_state != AppState::InGame {
        return false;
    }
    let mut i: usize = 0;
    while i < pieces.len()
        invariant
            i <= pieces.len(),
            *next_state == AppState::InGame,
            *old(next_state) == AppState::InGame,
            forall|k: int| 0 <= k < i ==> !spills(#[trigger] pieces@[k]),
        decreases pieces.len() - i,
    {
        let piece = pieces[i];
        if !piece.mark_for_delete && piece.phase == Phase::Settled && (piece.y > GAME_OVER_HEIGHT
            || piece.x > CONTAINER_WIDTH / 2 + CONTAINER_THICKNESS || piece.x < -(CONTAINER_WIDTH
            / 2) - CONTAINER_THICKNESS) {
            assert(spills(pieces@[i as int]));
            *next_state = AppState::GameOverMenu;
            return true;
        }
        i = i + 1;
    }
    false
}

/// A field on which every live fruit is still spawning never ends the run.
pub proof fn spawning_fruits_never_spill(pieces: Seq<Piece>)
    requires
        forall|k: int|
            0 <= k < pieces.len() ==> (#[trigger] pieces[k]).phase == Phase::Spawning
                || pieces[k].mark_for_delete,
    ensures
        !any_spills(pieces),
{
}

} // verus!
