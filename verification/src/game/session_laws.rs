//! What holds of every tick of a session.

use vstd::prelude::*;
use crate::constants::{known_score, CLICK_DELAY, KNOWN_TYPE_COUNT};
use crate::game::collision::{
    can_merge, claims_of, live_fruits, merge_pass, midpoint, sweep_keeps_the_live, used,
    ShouldMerge,
};
use crate::game::game_over::{any_spills, out_of_bounds, spills};
use crate::game::merge_laws::{collisions_bound_merges, lone_collision_merges, pass_only_marks};
use crate::game::mouse_click::{click_spawns, gate_after};
use crate::game::session::{
    created_by, created_ids_count_up, joined_stay_valid, sweep_due, tended, GameView,
};
use crate::game::physics_manipulations::at_rest;
use crate::game::{fresh_piece, place_of, Phase, Piece};
use crate::resources::{Fruit, MassSetting, SpawnTime};
use crate::AppState;

verus! {

/// The fruits that merges create enter the field spawning, with ids from
/// `first_id` on.
proof fn created_are_spawning(merges: Seq<ShouldMerge>, first_id: u64, k: int)
    requires
        0 <= k < created_by(merges, first_id).len(),
        first_id + merges.len() <= u64::MAX,
    ensures
        created_by(merges, first_id)[k].phase == Phase::Spawning,
        !created_by(merges, first_id)[k].mark_for_delete,
        created_by(merges, first_id)[k].id >= first_id,
    decreases merges.len(),
{
    if merges.len() > 0 {
        created_ids_count_up(merges.drop_last(), first_id);
        if k < created_by(merges.drop_last(), first_id).len() {
            created_are_spawning(merges.drop_last(), first_id, k);
        }
    }
}

/// Where the fruit at place `j` of the field comes from, once the stages
/// after the physics step are through. It is what the settling stage made of
/// a fruit `was`. Either `was` stood on the field before, at the place
/// returned, perhaps marked by a merge since; or no place is returned, and a
/// merge created `was`, spawning, under an id that no fruit had before.
pub proof fn fruits_after_stages(
    game: GameView,
    delta: u64,
    events: Seq<(u64, u64)>,
    j: int,
) -> (origin: (Option<int>, Piece))
    requires
        game.wf(),
        game.room_for_stages(events.len() as int),
        0 <= j < game.after_stages(delta, events).pieces.len(),
    ensures
        game.after_stages(delta, events).pieces[j] == tended(origin.1, delta, game.mass_setting),
        match origin.0 {
            Some(k) => {
                &&& 0 <= k < game.pieces.len()
                &&& origin.1 == game.pieces[k] || origin.1 == used(game.pieces[k])
            },
            None => {
                &&& origin.1.id >= game.next_id
                &&& origin.1.phase == Phase::Spawning
            },
        },
{
    let claims = claims_of(events, game.pieces);
    let pass = merge_pass(game.pieces, game.score as int, claims);
    let created = created_by(pass.merges, game.next_id);
    let merged = game.after_merges(events);
    let settled = merged.after_settling(delta);
    let checked = settled.after_bounds();
    let end = checked.after_sweep(delta);
    let now = end.pieces[j];
    pass_only_marks(game.pieces, game.score as int, claims);
    collisions_bound_merges(game.pieces, game.score as int, events);
    created_ids_count_up(pass.merges, game.next_id);
    let k = if sweep_due(checked.since_sweep, delta) {
        sweep_keeps_the_live(checked.pieces);
        assert(live_fruits(checked.pieces).contains(now));
        choose|k: int| 0 <= k < checked.pieces.len() && checked.pieces[k] == now
    } else {
        j
    };
    let was = merged.pieces[k];
    assert(settled.pieces[k] == tended(was, delta, game.mass_setting));
    if k < game.pieces.len() {
        assert(was == pass.pieces[k]);
        assert(pass.pieces[k] == game.pieces[k] || pass.pieces[k] == used(game.pieces[k]));
        (Some(k), was)
    } else {
        assert(was == created[k - game.pieces.len()]);
        created_are_spawning(pass.merges, game.next_id, k - game.pieces.len());
        (None, was)
    }
}

/// A tick in which two fruits that may merge collide, and nothing else
/// does. Both are marked for deletion. If they are of the largest tier, no
/// fruit is created and the score stays. Otherwise exactly one fruit joins
/// the field, of the next tier, halfway between the two, under the next id,
/// and the score grows by the score of that tier.
pub proof fn lone_collision_in_session(game: GameView, a: u64, b: u64)
    requires
        can_merge(game.pieces, a, b),
        0 <= game.pieces[place_of(game.pieces, a).unwrap()].fruit@ < KNOWN_TYPE_COUNT,
        game.room_for_stages(1),
    ensures
        ({
            let first = game.pieces[place_of(game.pieces, b).unwrap()];
            let second = game.pieces[place_of(game.pieces, a).unwrap()];
            let marked = game.pieces.update(place_of(game.pieces, b).unwrap(), used(first)).update(
                place_of(game.pieces, a).unwrap(),
                used(second),
            );
            let after = game.after_merges(seq![(a, b)]);
            if first.fruit@ == KNOWN_TYPE_COUNT - 1 {
                &&& after.pieces == marked
                &&& after.score == game.score
                &&& after.next_id == game.next_id
            } else {
                &&& after.pieces == marked.push(
                    fresh_piece(
                        game.next_id,
                        first.fruit.merged().unwrap(),
                        midpoint(first.x as int, second.x as int),
                        midpoint(first.y as int, second.y as int),
                    ),
                )
                &&& first.fruit.merged().unwrap()@ == first.fruit@ + 1
                &&& after.score == game.score + known_score(first.fruit@ + 1)
                &&& after.next_id == game.next_id + 1
            }
        }),
{
    let first = game.pieces[place_of(game.pieces, b).unwrap()];
    let events = seq![(a, b)];
    let pass = merge_pass(game.pieces, game.score as int, claims_of(events, game.pieces));
    lone_collision_merges(game.pieces, game.score as int, a, b);
    first.fruit.merged_is_next_tier();
    assert(pass.merges.len() == 1);
    assert(pass.merges.drop_last() == Seq::<ShouldMerge>::empty());
    let created = created_by(pass.merges, game.next_id);
    assert(created_by(pass.merges.drop_last(), game.next_id) == Seq::<Piece>::empty());
    if first.fruit@ == KNOWN_TYPE_COUNT - 1 {
        assert(created == Seq::<Piece>::empty());
        assert(pass.pieces + created == pass.pieces);
    } else {
        assert(created.len() == 1);
        assert(pass.pieces + created == pass.pieces.push(created[0]));
    }
}

/// The click stage changes no fruit: it leaves the field as it is or adds
/// one spawning fruit at its end, under an id that no fruit had before.
pub proof fn click_only_adds(
    game: GameView,
    delta: u64,
    click: Option<i32>,
    jitter: int,
    drawn: Fruit,
)
    requires
        game.wf(),
        game.room_for_click(),
    ensures
        ({
            let after = game.after_click_in_run(delta, click, jitter, drawn);
            &&& after.pieces.len() <= game.pieces.len() + 1
            &&& after.pieces.take(game.pieces.len() as int) == game.pieces
            &&& after.pieces.len() > game.pieces.len() ==> {
                &&& after.pieces.last().id == game.next_id
                &&& after.pieces.last().phase == Phase::Spawning
                &&& after.next_id == game.next_id + 1
            }
            &&& after.wf()
        }),
{
    let after = game.after_click_in_run(delta, click, jitter, drawn);
    if after.pieces.len() > game.pieces.len() {
        let joined = seq![after.pieces.last()];
        assert(after.pieces == game.pieces + joined);
        joined_stay_valid(game.pieces, joined, game.next_id);
    }
    assert(after.pieces.take(game.pieces.len() as int) == game.pieces);
}

/// A settled fruit never goes back to spawning: whatever the stages after
/// the physics step do, a fruit that was settled before them and is still on
/// the field after them is settled.
pub proof fn settled_stays_through_stages(
    game: GameView,
    delta: u64,
    events: Seq<(u64, u64)>,
    i: int,
    j: int,
)
    requires
        game.wf(),
        game.room_for_stages(events.len() as int),
        0 <= i < game.pieces.len(),
        game.pieces[i].phase == Phase::Settled,
        0 <= j < game.after_stages_in_run(delta, events).pieces.len(),
        game.after_stages_in_run(delta, events).pieces[j].id == game.pieces[i].id,
    ensures
        game.after_stages_in_run(delta, events).pieces[j].phase == Phase::Settled,
{
    if game.state == AppState::InGame {
        let (place, was) = fruits_after_stages(game, delta, events, j);
        match place {
            Some(k) => {
                assert(game.pieces[k].id == game.pieces[i].id);
                assert(k == i);
            },
            None => {
                assert(game.pieces[i].id < game.next_id);
            },
        }
    } else {
        assert(i == j);
    }
}

/// The same of a whole tick: a fruit that was settled before it and is still
/// on the field after it is settled.
pub proof fn settled_never_returns(
    game: GameView,
    delta: u64,
    click: Option<i32>,
    events: Seq<(u64, u64)>,
    jitter: int,
    drawn: Fruit,
    i: int,
    j: int,
)
    requires
        game.wf(),
        game.has_room(events.len() as int),
        0 <= i < game.pieces.len(),
        game.pieces[i].phase == Phase::Settled,
        0 <= j < game.after_tick(delta, click, events, jitter, drawn).pieces.len(),
        game.after_tick(delta, click, events, jitter, drawn).pieces[j].id == game.pieces[i].id,
    ensures
        game.after_tick(delta, click, events, jitter, drawn).pieces[j].phase == Phase::Settled,
{
    let clicked = game.after_click_in_run(delta, click, jitter, drawn);
    click_only_adds(game, delta, click, jitter, drawn);
    assert(clicked.pieces[i] == clicked.pieces.take(game.pieces.len() as int)[i]);
    settled_stays_through_stages(clicked, delta, events, i, j);
}

/// A fruit keeps its tier for as long as it is on the field: a tick changes
/// the tier of none. A larger fruit only ever appears as a new fruit, under
/// a new id.
pub proof fn fruit_keeps_its_tier(
    game: GameView,
    delta: u64,
    click: Option<i32>,
    events: Seq<(u64, u64)>,
    jitter: int,
    drawn: Fruit,
    i: int,
    j: int,
)
    requires
        game.wf(),
        game.has_room(events.len() as int),
        0 <= i < game.pieces.len(),
        0 <= j < game.after_tick(delta, click, events, jitter, drawn).pieces.len(),
        game.after_tick(delta, click, events, jitter, drawn).pieces[j].id == game.pieces[i].id,
    ensures
        game.after_tick(delta, click, events, jitter, drawn).pieces[j].fruit
            == game.pieces[i].fruit,
{
    let clicked = game.after_click_in_run(delta, click, jitter, drawn);
    click_only_adds(game, delta, click, jitter, drawn);
    assert(clicked.pieces[i] == clicked.pieces.take(game.pieces.len() as int)[i]);
    if clicked.state == AppState::InGame {
        let (place, was) = fruits_after_stages(clicked, delta, events, j);
        match place {
            Some(k) => {
                assert(clicked.pieces[k].id == clicked.pieces[i].id);
                assert(k == i);
            },
            None => {
                assert(clicked.pieces[i].id < clicked.next_id);
            },
        }
    } else {
        assert(i == j);
    }
}

/// A spawning fruit is still spawning after the settling stage unless, in
/// that tick, its grace period is over and it is at rest.
pub proof fn spawning_until_grace_and_rest(piece: Piece, delta: u64, setting: MassSetting)
    requires
        piece.phase == Phase::Spawning,
    ensures
        tended(piece, delta, setting).phase == Phase::Settled <==> {
            &&& !piece.mark_for_delete
            &&& piece.time_since_spawn.timer.remaining <= delta
            &&& at_rest(piece)
        },
{
}

/// A change of the mass setting reaches the whole pile within one tick:
/// after the stages every live settled fruit on the field has the mass of the
/// new share, however many there are. The setting then counts as applied.
pub proof fn changed_mass_reaches_all_settled(
    game: GameView,
    delta: u64,
    events: Seq<(u64, u64)>,
    j: int,
)
    requires
        game.wf(),
        game.room_for_stages(events.len() as int),
        game.mass_setting.changed(),
        0 <= j < game.after_stages(delta, events).pieces.len(),
        game.after_stages(delta, events).pieces[j].phase == Phase::Settled,
        !game.after_stages(delta, events).pieces[j].mark_for_delete,
    ensures
        game.after_stages(delta, events).pieces[j].mass == MassSetting::mass_at(
            game.mass_setting@,
        ),
        !game.after_stages(delta, events).mass_setting.changed(),
        game.after_stages(delta, events).mass_setting@ == game.mass_setting@,
{
    let (place, was) = fruits_after_stages(game, delta, events, j);
    MassSetting::mass_is_monotone(game.mass_setting@, game.mass_setting@);
    game.mass_setting.as_applied_keeps_share();
}

/// The settling stage leaves the mass of a fruit alone as long as the fruit
/// is spawning, and leaves a fruit that is marked for deletion alone
/// altogether; such a fruit does not spill either.
pub proof fn mass_waits_for_settling(piece: Piece, delta: u64, setting: MassSetting)
    ensures
        tended(piece, delta, setting).phase == Phase::Spawning ==> tended(
            piece,
            delta,
            setting,
        ).mass == piece.mass,
        piece.mark_for_delete ==> tended(piece, delta, setting) == piece,
        piece.mark_for_delete ==> !spills(piece),
{
}

/// A run ends in a tick exactly when a live settled fruit is out of bounds
/// once the fruits have been tended; fruits that are still spawning then, or
/// marked for deletion, cannot end it.
pub proof fn run_ends_on_settled_spill(game: GameView, delta: u64, events: Seq<(u64, u64)>)
    requires
        game.state == AppState::InGame,
    ensures
        ({
            let tended = game.after_merges(events).after_settling(delta);
            let after = game.after_stages(delta, events);
            let report = game.report_of_stages(delta, events);
            &&& report.ended == any_spills(tended.pieces)
            &&& after.state == if report.ended {
                AppState::GameOverMenu
            } else {
                AppState::InGame
            }
            &&& report.ended ==> exists|k: int|
                0 <= k < tended.pieces.len() && (#[trigger] tended.pieces[k]).phase
                    == Phase::Settled && !tended.pieces[k].mark_for_delete && out_of_bounds(
                    tended.pieces[k],
                )
        }),
{
    let tended = game.after_merges(events).after_settling(delta);
    if any_spills(tended.pieces) {
        let k = choose|k: int| 0 <= k < tended.pieces.len() && spills(#[trigger] tended.pieces[k]);
        assert(tended.pieces[k].phase == Phase::Settled);
    }
}

/// Once a run is over, a tick changes nothing and reports nothing.
pub proof fn over_means_idle(
    game: GameView,
    delta: u64,
    click: Option<i32>,
    events: Seq<(u64, u64)>,
    jitter: int,
    drawn: Fruit,
)
    requires
        game.state != AppState::InGame,
    ensures
        game.after_tick(delta, click, events, jitter, drawn) == game,
        game.report_of_tick(delta, click, events, jitter, drawn).spawned.len() == 0,
        game.report_of_tick(delta, click, events, jitter, drawn).merges.len() == 0,
        game.report_of_tick(delta, click, events, jitter, drawn).removed.len() == 0,
        !game.report_of_tick(delta, click, events, jitter, drawn).ended,
{
}

/// After a spawn, no click spawns until the cooldown has passed: clicks in
/// ticks that together last less than `CLICK_DELAY` are dropped, and the
/// first click at or after it spawns.
pub proof fn cooldown_blocks_clicks(
    gate: SpawnTime,
    delta: u64,
    click: Option<i32>,
    next_delta: u64,
    next_click: Option<i32>,
)
    requires
        click_spawns(gate, delta, click),
    ensures
        gate_after(gate, delta, click).timer.remaining == CLICK_DELAY,
        click_spawns(gate_after(gate, delta, click), next_delta, next_click) <==> next_click
            is Some && next_delta >= CLICK_DELAY,
{
}

/// A click that does not spawn leaves the cooldown running down, so that
/// waiting adds up over ticks.
pub proof fn cooldown_adds_up(gate: SpawnTime, delta: u64, next_delta: u64, click: Option<i32>)
    requires
        !click_spawns(gate, delta, click),
        delta + next_delta <= u64::MAX,
    ensures
        gate_after(gate_after(gate, delta, click), next_delta, None) == gate_after(
            gate,
            (delta + next_delta) as u64,
            None,
        ),
{
}

} // verus!
