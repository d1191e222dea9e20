//! Settling: a fruit that has outlived its grace period and has come to rest
//! is given the mass of the current setting, which keeps a pile of fruits
//! from jittering.

use vstd::prelude::*;
use crate::constants::{REST_SPEED, SCALE};
use crate::game::{Phase, Piece, TimeSinceSpawn};
use crate::resources::{MassSetting, Timer};

verus! {

/// Both velocity components are strictly inside the resting bound.
pub open spec fn at_rest(piece: Piece) -> bool {
    &&& -REST_SPEED < piece.vx < REST_SPEED
    &&& -REST_SPEED < piece.vy < REST_SPEED
}

/// `piece` after `delta` microseconds: a live spawning fruit has that much
/// less of its grace period left.
pub open spec fn aged(piece: Piece, delta: u64) -> Piece {
    if !piece.mark_for_delete && piece.phase == Phase::Spawning {
        Piece {
            time_since_spawn: TimeSinceSpawn {
                timer: Timer {
                    remaining: Timer::remaining_after(
                        piece.time_since_spawn.timer.remaining as int,
                        delta as int,
                    ) as u64,
                },
            },
            ..piece
        }
    } else {
        piece
    }
}

/// Whether a fruit settles now: it is live and spawning, its grace period is
/// over, and it is at rest.
pub open spec fn settles(piece: Piece) -> bool {
    &&& !piece.mark_for_delete
    &&& piece.phase == Phase::Spawning
    &&& piece.time_since_spawn.timer.is_finished()
    &&& at_rest(piece)
}

/// `piece` after the settling stage, where settling gives the mass `mass`.
pub open spec fn settled(piece: Piece, mass: int) -> Piece {
    if settles(piece) {
        Piece { phase: Phase::Settled, mass: mass as u32, ..piece }
    } else {
        piece
    }
}

/// `piece` after the mass of settled fruits has been set to `mass`.
pub open spec fn reweighed(piece: Piece, mass: int) -> Piece {
    if !piece.mark_for_delete && piece.phase == Phase::Settled {
        Piece { mass: mass as u32, ..piece }
    } else {
        piece
    }
}

/// Lets `delta` microseconds of grace period pass for every live spawning
/// fruit.
pub fn mark_fruits_as_alive(pieces: &mut Vec<Piece>, delta: u64)
    ensures
        final(pieces).len() == old(pieces).len(),
        forall|k: int|
            0 <= k < old(pieces).len() ==> (#[trigger] final(pieces)@[k]) == aged(
                old(pieces)@[k],
                delta,
            ),
{
    let mut i: usize = 0;
    while i < pieces.len()
        invariant
            i <= pieces.len(),
            pieces.len() == old(pieces).len(),
            forall|k: int|
                0 <= k < i ==> (#[trigger] pieces@[k]) == aged(old(pieces)@[k], delta),
            forall|k: int| i <= k < pieces.len() ==> (#[trigger] pieces@[k]) == old(pieces)@[k],
        decreases pieces.len() - i,
    {
        let mut piece = pieces[i];
        if !piece.mark_for_delete && piece.phase == Phase::Spawning {
            piece.time_since_spawn.timer.tick(delta);
            pieces.set(i, piece);
        }
        i = i + 1;
    }
}

/// Settles every fruit that is due: a live spawning fruit whose grace period
/// is over and which is at rest becomes settled and takes the mass of the
/// setting. A fruit that is still in its grace period or still moving stays
/// as it is, and a settled fruit stays settled.
pub fn manipulate_mass(pieces: &mut Vec<Piece>, mass_setting: &MassSetting)
    ensures
        final(pieces).len() == old(pieces).len(),
        forall|k: int|
            0 <= k < old(pieces).len() ==> (#[trigger] final(pieces)@[k]) == settled(
                old(pieces)@[k],
                MassSetting::mass_at(mass_setting@),
            ),
{
    let mass = mass_setting.get_mass();
    let mut i: usize = 0;
    while i < pieces.len()
        invariant
            i <= pieces.len(),
            pieces.len() == old(pieces).len(),
            mass == MassSetting::mass_at(mass_setting@),
            forall|k: int|
                0 <= k < i ==> (#[trigger] pieces@[k]) == settled(old(pieces)@[k], mass as int),
            forall|k: int| i <= k < pieces.len() ==> (#[trigger] pieces@[k]) == old(pieces)@[k],
        decreases pieces.len() - i,
    {
        let mut piece = pieces[i];
        if !piece.mark_for_delete && piece.phase == Phase::Spawning
            && piece.time_since_spawn.timer.finished() && -REST_SPEED < piece.vx && piece.vx
            < REST_SPEED && -REST_SPEED < piece.vy && piece.vy < REST_SPEED {
            piece.phase = Phase::Settled;
            piece.mass = mass;
            pieces.set(i, piece);
        }
        i = i + 1;
    }
}

/// Gives every live settled fruit the mass of the setting, if the setting was
/// changed since this was last done; spawning fruits keep their mass. The
/// setting then counts as applied.
pub fn change_manipulated_mass_on_slide(pieces: &mut Vec<Piece>, mass_setting: &mut MassSetting)
    ensures
        final(pieces).len() == old(pieces).len(),
        old(mass_setting).changed() ==> forall|k: int|
            0 <= k < old(pieces).len() ==> (#[trigger] final(pieces)@[k]) == reweighed(
                old(pieces)@[k],
                MassSetting::mass_at(old(mass_setting)@),
            ),
        !old(mass_setting).changed() ==> final(pieces)@ == old(pieces)@,
        *final(mass_setting) == old(mass_setting).as_applied(),
        final(mass_setting)@ == old(mass_setting)@,
        !final(mass_setting).changed(),
{
    proof {
        mass_setting.as_applied_keeps_share();
    }
    if mass_setting.is_changed() {
        let mass = mass_setting.get_mass();
        let mut i: usize = 0;
        while i < pieces.len()
            invariant
                i <= pieces.len(),
                pieces.len() == old(pieces).len(),
                forall|k: int|
                    0 <= k < i ==> (#[trigger] pieces@[k]) == reweighed(
                        old(pieces)@[k],
                        mass as int,
                    ),
                forall|k: int|
                    i <= k < pieces.len() ==> (#[trigger] pieces@[k]) == old(pieces)@[k],
            decreases pieces.len() - i,
        {
            let mut piece = pieces[i];
            if !piece.mark_for_delete && piece.phase == Phase::Settled {
                piece.mass = mass;
                pieces.set(i, piece);
            }
            i = i + 1;
        }
        mass_setting.applied();
    }
}

/// Once the setting has been applied, every live settled fruit has the mass
/// of the share that was set, however many there are, and every spawning
/// fruit has the mass it had.
pub proof fn new_share_reaches_all_settled(then: Seq<Piece>, now: Seq<Piece>, share: int, k: int)
    requires
        now.len() == then.len(),
        forall|i: int|
            0 <= i < then.len() ==> (#[trigger] now[i]) == reweighed(
                then[i],
                MassSetting::mass_at(share),
            ),
        0 <= share <= SCALE,
        0 <= k < then.len(),
    ensures
        !then[k].mark_for_delete && then[k].phase == Phase::Settled ==> now[k].mass
            == MassSetting::mass_at(share),
        then[k].phase == Phase::Spawning ==> now[k] == then[k],
        now[k].phase == then[k].phase,
{
    MassSetting::mass_is_monotone(share, share);
}

/// No stage of settling takes a fruit back to spawning.
pub proof fn settled_stays_settled(piece: Piece, delta: u64, mass: int)
    requires
        piece.phase == Phase::Settled,
    ensures
        aged(piece, delta).phase == Phase::Settled,
        settled(piece, mass).phase == Phase::Settled,
        reweighed(piece, mass).phase == Phase::Settled,
{
}

/// A spawning fruit stays spawning through the settling stage unless its
/// grace period is over and it is at rest.
pub proof fn spawning_until_due(piece: Piece, mass: int)
    requires
        piece.phase == Phase::Spawning,
    ensures
        settled(piece, mass).phase == Phase::Settled <==> !piece.mark_for_delete
            && piece.time_since_spawn.timer.is_finished() && at_rest(piece),
{
}

} // verus!
