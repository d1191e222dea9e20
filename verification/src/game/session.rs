//! One session of the game: the fruits, the score and the settings, and the
//! order in which the stages of a tick act on them.
//!
//! A tick has eight stages:
//!
//! 1. the click: the cooldown runs, and a click may spawn a fruit;
//! 2. the physics step, which is the caller's: it moves the fruits and finds
//!    the collisions;
//! 3. the collisions are taken in and turned into claims;
//! 4. the claims are resolved into merges;
//! 5. the merged fruits are marked for deletion, and the fruits that the
//!    merges create join the field;
//! 6. settling: grace periods run, resting fruits settle, and a changed mass
//!    setting is applied to the settled ones;
//! 7. the bounds check, which may end the run;
//! 8. the sweep, in the ticks in which it is due.
//!
//! `Game::mouse_click` is stage one and `Game::advance` is stages three to
//! eight, so that the caller can run its physics step between them and hand
//! over what it found with `Game::set_motion` and the list of collisions.
//! `Game::tick` is both in one call. Outside a run no stage does anything.

use vstd::prelude::*;
use crate::constants::{
    CLICK_DELAY, MAX_KNOWN_SCORE, SCALE, SPAWNABLE_TYPE_COUNT, SPAWN_JITTER, SWEEP_INTERVAL,
};
use crate::game::collision::{
    claims_of, collision, live_fruits, merge_fruits, merge_pass, remove_used_fruits,
    sweep_keeps_the_live, used_ids, ShouldMerge,
};
use crate::game::game_over::{any_spills, check_game_over};
use crate::game::merge_laws::{collisions_bound_merges, pass_only_marks};
use crate::game::mouse_click::{
    advanced, click_spawns, clicked_fruit, gate_after, mouse_click_with,
};
use crate::game::physics_manipulations::{
    aged, change_manipulated_mass_on_slide, manipulate_mass, mark_fruits_as_alive, reweighed,
    settled,
};
use crate::game::{distinct_ids, find_piece, fresh_piece, place_of, spawn_result, Phase, Piece};
use crate::resources::{
    random_in_range, random_spawnable_fruit, Fruit, MassSetting, NextGenerator, ScoreTracker,
    SpawnTime, Timer,
};
use crate::AppState;

verus! {

/// Every fruit has an id below `bound`.
pub open spec fn ids_below(pieces: Seq<Piece>, bound: u64) -> bool {
    forall|k: int| 0 <= k < pieces.len() ==> (#[trigger] pieces[k]).id < bound
}

/// The fruits that the merges create, in the order of the merges, with ids
/// counted up from `first_id`. Each stands halfway between the two fruits it
/// replaces; a merge of two largest fruits creates none.
pub open spec fn created_by(merges: Seq<ShouldMerge>, first_id: u64) -> Seq<Piece>
    decreases merges.len(),
{
    if merges.len() == 0 {
        Seq::empty()
    } else {
        let earlier = created_by(merges.drop_last(), first_id);
        match merges.last().merge_result {
            Some(fruit) => earlier.push(
                fresh_piece(
                    (first_id + earlier.len()) as u64,
                    fruit,
                    merges.last().spec_new_x(),
                    merges.last().spec_new_y(),
                ),
            ),
            None => earlier,
        }
    }
}

/// `piece` after the settling stages of a tick of `delta` microseconds: its
/// grace period runs, it settles if it is due, and if the setting was changed
/// it takes the new mass when settled.
pub open spec fn tended(piece: Piece, delta: u64, setting: MassSetting) -> Piece {
    let mass = MassSetting::mass_at(setting@);
    let through = settled(aged(piece, delta), mass);
    if setting.changed() {
        reweighed(through, mass)
    } else {
        through
    }
}

/// A sweep is due in a tick that reaches the end of the interval.
pub open spec fn sweep_due(since_sweep: u64, delta: u64) -> bool {
    since_sweep + delta >= SWEEP_INTERVAL
}

/// A session as contracts see it.
pub struct GameView {
    /// The fruits on the field, oldest first.
    pub pieces: Seq<Piece>,
    /// The id that the next new fruit gets.
    pub next_id: u64,
    pub score: u32,
    pub mass_setting: MassSetting,
    pub spawn_time: SpawnTime,
    pub next_generator: NextGenerator,
    pub state: AppState,
    /// Microseconds since the last sweep was due.
    pub since_sweep: u64,
}

impl GameView {
    /// No two fruits share an id, every id was handed out by this session,
    /// the next sweep is less than one interval away, and the share of the
    /// mass setting is at most the whole.
    pub open spec fn wf(self) -> bool {
        &&& distinct_ids(self.pieces)
        &&& ids_below(self.pieces, self.next_id)
        &&& self.since_sweep < SWEEP_INTERVAL
        &&& 0 <= self.mass_setting@ <= SCALE
    }

    /// Stage one: the click. A spawning click puts the current fruit of the
    /// generator on the field under the next id.
    pub open spec fn after_click(
        self,
        delta: u64,
        click: Option<i32>,
        jitter: int,
        drawn: Fruit,
    ) -> GameView {
        if click_spawns(self.spawn_time, delta, click) {
            GameView {
                pieces: self.pieces.push(
                    clicked_fruit(
                        self.next_id,
                        click.unwrap(),
                        jitter,
                        self.next_generator.current_fruit,
                    ),
                ),
                next_id: (self.next_id + 1) as u64,
                spawn_time: gate_after(self.spawn_time, delta, click),
                next_generator: advanced(self.next_generator, drawn),
                ..self
            }
        } else {
            GameView { spawn_time: gate_after(self.spawn_time, delta, click), ..self }
        }
    }

    /// The merges that the collisions `events` lead to on this field.
    pub open spec fn merges_of(self, events: Seq<(u64, u64)>) -> Seq<ShouldMerge> {
        merge_pass(self.pieces, self.score as int, claims_of(events, self.pieces)).merges
    }

    /// Stages three to five: the collisions are resolved into merges, the
    /// merged fruits are marked, the score grows, and the created fruits
    /// join the field.
    pub open spec fn after_merges(self, events: Seq<(u64, u64)>) -> GameView {
        let pass = merge_pass(self.pieces, self.score as int, claims_of(events, self.pieces));
        let created = created_by(pass.merges, self.next_id);
        GameView {
            pieces: pass.pieces + created,
            next_id: (self.next_id + created.len()) as u64,
            score: pass.score as u32,
            ..self
        }
    }

    /// Stage six: settling, with the mass setting as it stands when the stage
    /// begins.
    pub open spec fn after_settling(self, delta: u64) -> GameView {
        GameView {
            pieces: Seq::new(
                self.pieces.len(),
                |k: int| tended(self.pieces[k], delta, self.mass_setting),
            ),
            mass_setting: self.mass_setting.as_applied(),
            ..self
        }
    }

    /// Stage seven: a fruit that spills ends the run.
    pub open spec fn after_bounds(self) -> GameView {
        if self.state == AppState::InGame && any_spills(self.pieces) {
            GameView { state: AppState::GameOverMenu, ..self }
        } else {
            self
        }
    }

    /// Stage eight: the sweep, in the ticks in which it is due.
    pub open spec fn after_sweep(self, delta: u64) -> GameView {
        GameView {
            pieces: if sweep_due(self.since_sweep, delta) {
                live_fruits(self.pieces)
            } else {
                self.pieces
            },
            since_sweep: ((self.since_sweep + delta) % (SWEEP_INTERVAL as int)) as u64,
            ..self
        }
    }

    /// Stages three to eight, which follow the physics step: merging,
    /// settling, the bounds check and the sweep. Each stage acts on what the
    /// one before has left, so a fruit merged in this tick is already skipped
    /// by settling and by the bounds check, though it stays on the field until
    /// a sweep, and a fruit created in this tick is tended in it.
    pub open spec fn after_stages(self, delta: u64, events: Seq<(u64, u64)>) -> GameView {
        self.after_merges(events).after_settling(delta).after_bounds().after_sweep(delta)
    }

    /// What stages three to eight report.
    pub open spec fn report_of_stages(self, delta: u64, events: Seq<(u64, u64)>) -> TickReportView {
        let tended = self.after_merges(events).after_settling(delta);
        TickReportView {
            spawned: created_by(self.merges_of(events), self.next_id),
            merges: self.merges_of(events),
            removed: if sweep_due(self.since_sweep, delta) {
                used_ids(tended.pieces)
            } else {
                Seq::empty()
            },
            ended: any_spills(tended.pieces),
        }
    }

    /// The session after the click stage: outside a run nothing happens.
    pub open spec fn after_click_in_run(
        self,
        delta: u64,
        click: Option<i32>,
        jitter: int,
        drawn: Fruit,
    ) -> GameView {
        if self.state == AppState::InGame {
            self.after_click(delta, click, jitter, drawn)
        } else {
            self
        }
    }

    /// The session after stages three to eight: outside a run nothing
    /// happens.
    pub open spec fn after_stages_in_run(self, delta: u64, events: Seq<(u64, u64)>) -> GameView {
        if self.state == AppState::InGame {
            self.after_stages(delta, events)
        } else {
            self
        }
    }

    /// What stages three to eight report: outside a run, nothing.
    pub open spec fn report_of_stages_in_run(
        self,
        delta: u64,
        events: Seq<(u64, u64)>,
    ) -> TickReportView {
        if self.state == AppState::InGame {
            self.report_of_stages(delta, events)
        } else {
            TickReportView {
                spawned: Seq::empty(),
                merges: Seq::empty(),
                removed: Seq::empty(),
                ended: false,
            }
        }
    }

    /// The session after one whole tick: the click stage, then the other
    /// stages. Outside a run a tick does nothing.
    pub open spec fn after_tick(
        self,
        delta: u64,
        click: Option<i32>,
        events: Seq<(u64, u64)>,
        jitter: int,
        drawn: Fruit,
    ) -> GameView {
        self.after_click_in_run(delta, click, jitter, drawn).after_stages_in_run(delta, events)
    }

    /// What a whole tick reports: the fruit that the click spawned comes
    /// first among the new fruits.
    pub open spec fn report_of_tick(
        self,
        delta: u64,
        click: Option<i32>,
        events: Seq<(u64, u64)>,
        jitter: int,
        drawn: Fruit,
    ) -> TickReportView {
        let clicked = self.after_click_in_run(delta, click, jitter, drawn);
        let report = clicked.report_of_stages_in_run(delta, events);
        TickReportView {
            spawned: clicked.pieces.skip(self.pieces.len() as int) + report.spawned,
            ..report
        }
    }

    /// A session before its first run, but for the mass setting.
    pub open spec fn initial(
        current_fruit: Fruit,
        next_fruit: Fruit,
        mass_setting: MassSetting,
    ) -> GameView {
        GameView {
            pieces: Seq::empty(),
            next_id: 0,
            score: 0,
            mass_setting,
            spawn_time: SpawnTime { timer: Timer { remaining: 0 } },
            next_generator: NextGenerator {
                current_fruit,
                next_fruit,
                should_update_previews: false,
            },
            state: AppState::StartMenu,
            since_sweep: 0,
        }
    }

    /// The session with the field cleared, the score reset and the generator
    /// seeded anew. Ids are not handed out again, and the settings, the
    /// cooldown and the screen stay.
    pub open spec fn cleared(self, current_fruit: Fruit, next_fruit: Fruit) -> GameView {
        GameView {
            pieces: Seq::empty(),
            score: 0,
            next_generator: NextGenerator {
                current_fruit,
                next_fruit,
                should_update_previews: true,
            },
            ..self
        }
    }

    /// The session after a run was begun from a menu.
    pub open spec fn started(self, current_fruit: Fruit, next_fruit: Fruit) -> GameView {
        match self.state {
            AppState::StartMenu => GameView { state: AppState::InGame, ..self },
            AppState::GameOverMenu => GameView {
                state: AppState::InGame,
                ..self.cleared(current_fruit, next_fruit)
            },
            AppState::InGame => self,
        }
    }

    /// Whether there is an id left for a fruit that a click spawns.
    pub open spec fn room_for_click(self) -> bool {
        self.next_id < u64::MAX
    }

    /// Whether ids and score have room for the stages after the physics
    /// step with `events` collisions: they create at most one fruit for each
    /// collision, and each collision earns at most the largest score of the
    /// table.
    pub open spec fn room_for_stages(self, events: int) -> bool {
        &&& self.next_id + events <= u64::MAX
        &&& self.score + MAX_KNOWN_SCORE * events <= u32::MAX
    }

    /// Whether ids and score have room for a whole tick with `events`
    /// collisions, and so for each of its parts.
    pub open spec fn has_room(self, events: int) -> bool {
        &&& self.next_id + events + 1 <= u64::MAX
        &&& self.score + MAX_KNOWN_SCORE * events <= u32::MAX
    }
}

/// What happened in a tick, for whoever shows the game.
#[derive(Debug)]
pub struct TickReport {
    /// The fruits that joined the field: the clicked one first, then those
    /// that merges created.
    pub spawned: Vec<Piece>,
    /// The merges, in the order they were found.
    pub merges: Vec<ShouldMerge>,
    /// The ids of the fruits that the sweep removed.
    pub removed: Vec<u64>,
    /// Whether the run ended in this tick.
    pub ended: bool,
}

pub struct TickReportView {
    pub spawned: Seq<Piece>,
    pub merges: Seq<ShouldMerge>,
    pub removed: Seq<u64>,
    pub ended: bool,
}

impl View for TickReport {
    type V = TickReportView;

    open spec fn view(&self) -> TickReportView {
        TickReportView {
            spawned: self.spawned@,
            merges: self.merges@,
            removed: self.removed@,
            ended: self.ended,
        }
    }
}

/// Fruits with the ids of a valid field are a valid field.
proof fn same_ids_stay_valid(then: Seq<Piece>, now: Seq<Piece>, bound: u64)
    requires
        distinct_ids(then),
        ids_below(then, bound),
        now.len() == then.len(),
        forall|k: int| 0 <= k < then.len() ==> (#[trigger] now[k]).id == then[k].id,
    ensures
        distinct_ids(now),
        ids_below(now, bound),
{
    assert forall|i: int, j: int|
        0 <= i < now.len() && 0 <= j < now.len() && i != j implies #[trigger] now[i].id
        != #[trigger] now[j].id by {
        assert(now[i].id == then[i].id);
        assert(now[j].id == then[j].id);
    }
    assert forall|k: int| 0 <= k < now.len() implies (#[trigger] now[k]).id < bound by {
        assert(now[k].id == then[k].id);
    }
}

/// The created fruits are no more than the merges, and their ids count up
/// from the first.
pub(crate) proof fn created_ids_count_up(merges: Seq<ShouldMerge>, first_id: u64)
    requires
        first_id + merges.len() <= u64::MAX,
    ensures
        created_by(merges, first_id).len() <= merges.len(),
        forall|k: int|
            0 <= k < created_by(merges, first_id).len() ==> (#[trigger] created_by(
                merges,
                first_id,
            )[k]).id == first_id + k,
    decreases merges.len(),
{
    if merges.len() > 0 {
        created_ids_count_up(merges.drop_last(), first_id);
    }
}

/// New fruits with ids counted up from the bound keep a field valid.
pub(crate) proof fn joined_stay_valid(pieces: Seq<Piece>, joined: Seq<Piece>, bound: u64)
    requires
        distinct_ids(pieces),
        ids_below(pieces, bound),
        bound + joined.len() <= u64::MAX,
        forall|k: int| 0 <= k < joined.len() ==> (#[trigger] joined[k]).id == bound + k,
    ensures
        distinct_ids(pieces + joined),
        ids_below(pieces + joined, (bound + joined.len()) as u64),
{
    let all = pieces + joined;
    assert forall|k: int| 0 <= k < all.len() implies (#[trigger] all[k]).id < bound
        + joined.len() && (k < pieces.len() ==> all[k].id < bound) && (k >= pieces.len()
        ==> all[k].id == bound + (k - pieces.len())) by {
        if k < pieces.len() {
            assert(all[k] == pieces[k]);
        } else {
            assert(all[k] == joined[k - pieces.len()]);
        }
    }
}

/// A sweep keeps a field valid.
proof fn swept_stay_valid(pieces: Seq<Piece>, bound: u64)
    requires
        distinct_ids(pieces),
        ids_below(pieces, bound),
    ensures
        distinct_ids(live_fruits(pieces)),
        ids_below(live_fruits(pieces), bound),
    decreases pieces.len(),
{
    if pieces.len() > 0 {
        let earlier = pieces.drop_last();
        let kept = live_fruits(earlier);
        assert forall|i: int, j: int|
            0 <= i < earlier.len() && 0 <= j < earlier.len() && i
                != j implies #[trigger] earlier[i].id != #[trigger] earlier[j].id by {
            assert(pieces[i].id != pieces[j].id);
        }
        assert forall|k: int| 0 <= k < earlier.len() implies (#[trigger] earlier[k]).id
            < bound by {
            assert(earlier[k] == pieces[k]);
        }
        swept_stay_valid(earlier, bound);
        sweep_keeps_the_live(earlier);
        if !pieces.last().mark_for_delete {
            let all = live_fruits(pieces);
            let last = pieces.len() - 1;
            assert forall|k: int| 0 <= k < kept.len() implies (#[trigger] kept[k]).id
                != pieces[last].id by {
                assert(kept.contains(kept[k]));
                assert(earlier.contains(kept[k]));
                let place = choose|place: int|
                    0 <= place < earlier.len() && earlier[place] == kept[k];
                assert(pieces[place].id != pieces[last].id);
            }
            assert forall|i: int, j: int|
                0 <= i < all.len() && 0 <= j < all.len() && i != j implies #[trigger] all[i].id
                != #[trigger] all[j].id by {
                if i < kept.len() && j < kept.len() {
                    assert(kept[i].id != kept[j].id);
                } else if i < kept.len() {
                    assert(kept[i].id != pieces[last].id);
                } else {
                    assert(kept[j].id != pieces[last].id);
                }
            }
            assert(pieces[last].id < bound);
        }
    }
}

/// One session of the game.
pub struct Game {
    pieces: Vec<Piece>,
    next_id: u64,
    score_tracker: ScoreTracker,
    mass_setting: MassSetting,
    spawn_time: SpawnTime,
    next_generator: NextGenerator,
    state: AppState,
    since_sweep: u64,
}

impl View for Game {
    type V = GameView;

    closed spec fn view(&self) -> GameView {
        GameView {
            pieces: self.pieces@,
            next_id: self.next_id,
            score: self.score_tracker.score,
            mass_setting: self.mass_setting,
            spawn_time: self.spawn_time,
            next_generator: self.next_generator,
            state: self.state,
            since_sweep: self.since_sweep,
        }
    }
}

impl Game {
    /// A session at the start menu, with no fruit on the field, no score, the
    /// mass setting at its middle and the first spawn free of any wait. The
    /// two fruits of the generator are given.
    pub fn with_fruits(current_fruit: Fruit, next_fruit: Fruit) -> (game: Game)
        ensures
            game@ == GameView::initial(current_fruit, next_fruit, game@.mass_setting),
            game@.mass_setting@ == SCALE / 2,
            !game@.mass_setting.changed(),
            game@.wf(),
    {
        Game {
            pieces: Vec::new(),
            next_id: 0,
            score_tracker: ScoreTracker::default(),
            mass_setting: MassSetting::default(),
            spawn_time: SpawnTime::default(),
            next_generator: NextGenerator::from_fruits(current_fruit, next_fruit),
            state: AppState::default(),
            since_sweep: 0,
        }
    }

    /// A session as `with_fruits` makes it, with both fruits of the generator
    /// drawn at random from the spawnable tiers.
    pub fn new() -> (game: Game)
        ensures
            exists|current_fruit: Fruit, next_fruit: Fruit|
                {
                    &&& 0 <= current_fruit@ < SPAWNABLE_TYPE_COUNT
                    &&& 0 <= next_fruit@ < SPAWNABLE_TYPE_COUNT
                    &&& game@ == #[trigger] GameView::initial(
                        current_fruit,
                        next_fruit,
                        game@.mass_setting,
                    )
                },
            game@.mass_setting@ == SCALE / 2,
            !game@.mass_setting.changed(),
            game@.wf(),
    {
        let current_fruit = random_spawnable_fruit();
        let next_fruit = random_spawnable_fruit();
        Game::with_fruits(current_fruit, next_fruit)
    }

    /// Begins a run from a menu. From the start menu the session is played as
    /// it stands. From the game-over menu the field is cleared, the score is
    /// reset and the generator takes the two given fruits. During a run
    /// nothing happens.
    pub fn start_with(&mut self, current_fruit: Fruit, next_fruit: Fruit)
        requires
            old(self)@.wf(),
        ensures
            final(self)@.wf(),
            final(self)@ == old(self)@.started(current_fruit, next_fruit),
    {
        match self.state {
            AppState::StartMenu => {
                self.state = AppState::InGame;
            },
            AppState::GameOverMenu => {
                self.clear(current_fruit, next_fruit);
                self.state = AppState::InGame;
            },
            AppState::InGame => {},
        }
    }

    /// `start_with`, with the fruits of the generator drawn at random from
    /// the spawnable tiers.
    pub fn start(&mut self)
        requires
            old(self)@.wf(),
        ensures
            final(self)@.wf(),
            exists|current_fruit: Fruit, next_fruit: Fruit|
                {
                    &&& 0 <= current_fruit@ < SPAWNABLE_TYPE_COUNT
                    &&& 0 <= next_fruit@ < SPAWNABLE_TYPE_COUNT
                    &&& final(self)@ == #[trigger] old(self)@.started(current_fruit, next_fruit)
                },
    {
        let current_fruit = random_spawnable_fruit();
        let next_fruit = random_spawnable_fruit();
        self.start_with(current_fruit, next_fruit);
    }

    /// Starts the run over while it is under way; see `GameView::cleared`.
    pub fn restart_with(&mut self, current_fruit: Fruit, next_fruit: Fruit)
        requires
            old(self)@.wf(),
        ensures
            final(self)@.wf(),
            final(self)@ == old(self)@.cleared(current_fruit, next_fruit),
    {
        self.clear(current_fruit, next_fruit);
    }

    /// `restart_with`, with the fruits of the generator drawn at random from
    /// the spawnable tiers.
    pub fn restart(&mut self)
        requires
            old(self)@.wf(),
        ensures
            final(self)@.wf(),
            exists|current_fruit: Fruit, next_fruit: Fruit|
                {
                    &&& 0 <= current_fruit@ < SPAWNABLE_TYPE_COUNT
                    &&& 0 <= next_fruit@ < SPAWNABLE_TYPE_COUNT
                    &&& final(self)@ == #[trigger] old(self)@.cleared(current_fruit, next_fruit)
                },
    {
        let current_fruit = random_spawnable_fruit();
        let next_fruit = random_spawnable_fruit();
        self.restart_with(current_fruit, next_fruit);
    }

    fn clear(&mut self, current_fruit: Fruit, next_fruit: Fruit)
        requires
            old(self)@.wf(),
        ensures
            final(self)@.wf(),
            final(self)@ == old(self)@.cleared(current_fruit, next_fruit),
    {
        self.pieces = Vec::new();
        self.score_tracker.reset();
        self.next_generator = NextGenerator::from_fruits(current_fruit, next_fruit);
        self.next_generator.should_update_previews = true;
    }

    /// The fruits on the field, those marked for deletion included.
    pub fn pieces(&self) -> (pieces: &Vec<Piece>)
        ensures
            pieces@ == self@.pieces,
    {
        &self.pieces
    }

    pub fn score(&self) -> (score: u32)
        ensures
            score == self@.score,
    {
        self.score_tracker.score
    }

    pub fn state(&self) -> (state: AppState)
        ensures
            state == self@.state,
    {
        self.state
    }

    pub fn next_generator(&self) -> (generator: &NextGenerator)
        ensures
            *generator == self@.next_generator,
    {
        &self.next_generator
    }

    pub fn mass_setting(&self) -> (setting: &MassSetting)
        ensures
            *setting == self@.mass_setting,
    {
        &self.mass_setting
    }

    /// Whether the session has room for a tick with `events` collisions. If
    /// so, it has room for the click stage, and after it for the other
    /// stages.
    pub fn has_room(&self, events: usize) -> (room: bool)
        ensures
            room == self@.has_room(events as int),
            room ==> self@.room_for_click() && self@.room_for_stages(events as int),
    {
        let ids: u128 = self.next_id as u128 + events as u128 + 1;
        let each: u128 = MAX_KNOWN_SCORE as u128;
        let count: u128 = events as u128;
        assert(each * count <= 55 * 0xffff_ffff_ffff_ffff) by (nonlinear_arith)
            requires
                each == 55,
                count <= 0xffff_ffff_ffff_ffff,
        ;
        let gain: u128 = each * count;
        ids <= u64::MAX as u128 && self.score_tracker.score as u128 + gain <= u32::MAX as u128
    }

    /// The click stage with the two random draws given: `jitter` moves the
    /// fruit sideways and `drawn` becomes the new preview.
    ///
    /// The cooldown advances by `delta` microseconds. A click at the
    /// horizontal position `click` spawns the current fruit of the generator
    /// if the cooldown is over, and is dropped otherwise. Returns the new
    /// fruit. Outside a run nothing happens.
    pub fn mouse_click_with(
        &mut self,
        delta: u64,
        click: Option<i32>,
        jitter: i32,
        drawn: Fruit,
    ) -> (spawned: Option<Piece>)
        requires
            old(self)@.wf(),
            old(self)@.room_for_click(),
            -SPAWN_JITTER <= jitter < SPAWN_JITTER,
        ensures
            final(self)@.wf(),
            final(self)@ == old(self)@.after_click_in_run(delta, click, jitter as int, drawn),
            spawned is Some <==> old(self)@.state == AppState::InGame && click_spawns(
                old(self)@.spawn_time,
                delta,
                click,
            ),
            spawned is Some ==> final(self)@.pieces == old(self)@.pieces.push(spawned.unwrap()),
            spawned is None ==> final(self)@.pieces == old(self)@.pieces,
    {
        if self.state != AppState::InGame {
            return None;
        }
        let spawned = mouse_click_with(
            click,
            self.next_id,
            delta,
            jitter,
            drawn,
            &mut self.spawn_time,
            &mut self.next_generator,
        );
        match spawned {
            Some(piece) => {
                proof {
                    joined_stay_valid(self.pieces@, seq![piece], self.next_id);
                    assert(self.pieces@ + seq![piece] == self.pieces@.push(piece));
                }
                self.pieces.push(piece);
                self.next_id = self.next_id + 1;
            },
            None => {},
        }
        spawned
    }

    /// The click stage: `mouse_click_with`, with the sideways offset drawn at
    /// random from `-SPAWN_JITTER..SPAWN_JITTER` and the preview drawn at
    /// random from the spawnable tiers.
    pub fn mouse_click(&mut self, delta: u64, click: Option<i32>) -> (spawned: Option<Piece>)
        requires
            old(self)@.wf(),
            old(self)@.room_for_click(),
        ensures
            final(self)@.wf(),
            exists|jitter: int, drawn: Fruit|
                {
                    &&& -SPAWN_JITTER <= jitter < SPAWN_JITTER
                    &&& 0 <= drawn@ < SPAWNABLE_TYPE_COUNT
                    &&& final(self)@ == #[trigger] old(self)@.after_click_in_run(
                        delta,
                        click,
                        jitter,
                        drawn,
                    )
                },
            spawned is Some <==> old(self)@.state == AppState::InGame && click_spawns(
                old(self)@.spawn_time,
                delta,
                click,
            ),
            spawned is Some ==> final(self)@.pieces == old(self)@.pieces.push(spawned.unwrap()),
            spawned is None ==> final(self)@.pieces == old(self)@.pieces,
    {
        let jitter = random_in_range(-(SPAWN_JITTER as i64), SPAWN_JITTER as i64) as i32;
        let drawn = random_spawnable_fruit();
        self.mouse_click_with(delta, click, jitter, drawn)
    }

    /// Stages three to five of a tick.
    fn stage_merge(&mut self, events: &Vec<(u64, u64)>) -> (found: (
        Vec<ShouldMerge>,
        Vec<Piece>,
    ))
        requires
            old(self)@.wf(),
            old(self)@.next_id + events.len() <= u64::MAX,
            old(self)@.score + MAX_KNOWN_SCORE * events.len() <= u32::MAX,
        ensures
            final(self)@.wf(),
            final(self)@ == old(self)@.after_merges(events@),
            found.0@ == old(self)@.merges_of(events@),
            found.1@ == created_by(found.0@, old(self)@.next_id),
    {
        let ghost then = self@;
        let claims = collision(events, &self.pieces);
        proof {
            collisions_bound_merges(then.pieces, then.score as int, events@);
            pass_only_marks(then.pieces, then.score as int, claims@);
        }
        let merges = merge_fruits(&claims, &mut self.pieces, &mut self.score_tracker);
        proof {
            same_ids_stay_valid(then.pieces, self.pieces@, then.next_id);
            created_ids_count_up(merges@, then.next_id);
        }
        let ghost marked = self.pieces@;
        let ghost scored = self.score_tracker.score;
        let mut created: Vec<Piece> = Vec::new();
        let mut i: usize = 0;
        while i < merges.len()
            invariant
                i <= merges.len(),
                then.next_id + merges.len() <= u64::MAX,
                created@ == created_by(merges@.take(i as int), then.next_id),
                created.len() <= i,
                self.next_id == then.next_id + created.len(),
                self.pieces@ == marked + created@,
                self@ == (GameView {
                    pieces: self.pieces@,
                    next_id: self.next_id,
                    score: scored,
                    ..then
                }),
            decreases merges.len() - i,
        {
            proof {
                assert(merges@.take(i + 1).drop_last() == merges@.take(i as int));
            }
            let merge = merges[i];
            match merge.merge_result {
                Some(fruit) => {
                    let piece = spawn_result(self.next_id, fruit, merge.new_x(), merge.new_y());
                    proof {
                        assert((marked + created@).push(piece) == marked + created@.push(piece));
                    }
                    self.pieces.push(piece);
                    created.push(piece);
                    self.next_id = self.next_id + 1;
                },
                None => {},
            }
            i = i + 1;
        }
        proof {
            assert(merges@.take(merges.len() as int) == merges@);
            joined_stay_valid(marked, created@, then.next_id);
        }
        (merges, created)
    }

    /// Stage six of a tick.
    fn stage_settle(&mut self, delta: u64)
        requires
            old(self)@.wf(),
        ensures
            final(self)@.wf(),
            final(self)@ == old(self)@.after_settling(delta),
    {
        let ghost then = self@;
        mark_fruits_as_alive(&mut self.pieces, delta);
        manipulate_mass(&mut self.pieces, &self.mass_setting);
        change_manipulated_mass_on_slide(&mut self.pieces, &mut self.mass_setting);
        proof {
            assert forall|k: int| 0 <= k < then.pieces.len() implies (#[trigger] self.pieces@[k])
                == tended(then.pieces[k], delta, then.mass_setting) by {}
            assert(self.pieces@ == then.after_settling(delta).pieces);
            same_ids_stay_valid(then.pieces, self.pieces@, then.next_id);
        }
    }

    /// Stage eight of a tick.
    fn stage_sweep(&mut self, delta: u64) -> (removed: Vec<u64>)
        requires
            old(self)@.wf(),
        ensures
            final(self)@.wf(),
            final(self)@ == old(self)@.after_sweep(delta),
            removed@ == if sweep_due(old(self)@.since_sweep, delta) {
                used_ids(old(self)@.pieces)
            } else {
                Seq::empty()
            },
    {
        let total: u128 = self.since_sweep as u128 + delta as u128;
        let due = total >= SWEEP_INTERVAL as u128;
        self.since_sweep = (total % (SWEEP_INTERVAL as u128)) as u64;
        if due {
            proof {
                swept_stay_valid(self.pieces@, self.next_id);
            }
            remove_used_fruits(&mut self.pieces)
        } else {
            Vec::new()
        }
    }

    /// The stages that follow the physics step: the collisions `events`,
    /// pairs of fruits whose contact began since the last tick, are resolved
    /// into merges; then the fruits are tended for `delta` microseconds, the
    /// bounds are checked and, when due, the field is swept. Outside a run
    /// nothing happens.
    pub fn advance(&mut self, delta: u64, events: &Vec<(u64, u64)>) -> (report: TickReport)
        requires
            old(self)@.wf(),
            old(self)@.room_for_stages(events.len() as int),
        ensures
            final(self)@.wf(),
            final(self)@ == old(self)@.after_stages_in_run(delta, events@),
            report@ == old(self)@.report_of_stages_in_run(delta, events@),
    {
        if self.state != AppState::InGame {
            return TickReport {
                spawned: Vec::new(),
                merges: Vec::new(),
                removed: Vec::new(),
                ended: false,
            };
        }
        let (merges, spawned) = self.stage_merge(events);
        self.stage_settle(delta);
        let ended = check_game_over(&self.pieces, &mut self.state);
        let removed = self.stage_sweep(delta);
        TickReport { spawned, merges, removed, ended }
    }

    /// One whole tick with the two random draws given: `mouse_click_with`,
    /// then `advance`. For a caller whose physics step runs between ticks.
    pub fn tick_with(
        &mut self,
        delta: u64,
        click: Option<i32>,
        events: &Vec<(u64, u64)>,
        jitter: i32,
        drawn: Fruit,
    ) -> (report: TickReport)
        requires
            old(self)@.wf(),
            old(self)@.has_room(events.len() as int),
            -SPAWN_JITTER <= jitter < SPAWN_JITTER,
        ensures
            final(self)@.wf(),
            final(self)@ == old(self)@.after_tick(delta, click, events@, jitter as int, drawn),
            report@ == old(self)@.report_of_tick(delta, click, events@, jitter as int, drawn),
    {
        let ghost then = self@;
        let mut spawned: Vec<Piece> = Vec::new();
        match self.mouse_click_with(delta, click, jitter, drawn) {
            Some(piece) => {
                spawned.push(piece);
            },
            None => {},
        }
        proof {
            assert(spawned@ == self@.pieces.skip(then.pieces.len() as int));
        }
        let mut report = self.advance(delta, events);
        spawned.append(&mut report.spawned);
        TickReport {
            spawned,
            merges: report.merges,
            removed: report.removed,
            ended: report.ended,
        }
    }

    /// One whole tick: `tick_with`, with the sideways offset drawn at random
    /// from `-SPAWN_JITTER..SPAWN_JITTER` and the preview drawn at random from
    /// the spawnable tiers.
    pub fn tick(&mut self, delta: u64, click: Option<i32>, events: &Vec<(u64, u64)>) -> (report:
        TickReport)
        requires
            old(self)@.wf(),
            old(self)@.has_room(events.len() as int),
        ensures
            final(self)@.wf(),
            exists|jitter: int, drawn: Fruit|
                {
                    &&& -SPAWN_JITTER <= jitter < SPAWN_JITTER
                    &&& 0 <= drawn@ < SPAWNABLE_TYPE_COUNT
                    &&& final(self)@ == #[trigger] old(self)@.after_tick(
                        delta,
                        click,
                        events@,
                        jitter,
                        drawn,
                    )
                    &&& report@ == old(self)@.report_of_tick(delta, click, events@, jitter, drawn)
                },
    {
        let jitter = random_in_range(-(SPAWN_JITTER as i64), SPAWN_JITTER as i64) as i32;
        let drawn = random_spawnable_fruit();
        self.tick_with(delta, click, events, jitter, drawn)
    }

    /// Notes that the previews show the fruits of the generator.
    pub fn preview_updated(&mut self)
        ensures
            final(self)@ == (GameView {
                next_generator: NextGenerator {
                    should_update_previews: false,
                    ..old(self)@.next_generator
                },
                ..old(self)@
            }),
            old(self)@.wf() ==> final(self)@.wf(),
    {
        self.next_generator.preview_updated();
    }

    /// Sets the share of the mass setting; see `MassSetting::set_percentage`.
    pub fn set_mass_percentage(&mut self, percentage: u32) -> (accepted: bool)
        ensures
            accepted == (percentage <= SCALE),
            accepted ==> final(self)@.mass_setting@ == percentage,
            accepted ==> final(self)@.mass_setting.changed(),
            !accepted ==> final(self)@.mass_setting == old(self)@.mass_setting,
            final(self)@ == (GameView { mass_setting: final(self)@.mass_setting, ..old(self)@ }),
    {
        self.mass_setting.set_percentage(percentage)
    }

    /// Records where the physics step has put a fruit and how fast it moves.
    /// Returns whether the session has a fruit of that id.
    pub fn set_motion(&mut self, id: u64, x: i32, y: i32, vx: i32, vy: i32) -> (found: bool)
        requires
            old(self)@.wf(),
        ensures
            final(self)@.wf(),
            found == place_of(old(self)@.pieces, id) is Some,
            found ==> final(self)@ == (GameView {
                pieces: old(self)@.pieces.update(
                    place_of(old(self)@.pieces, id).unwrap(),
                    Piece {
                        x,
                        y,
                        vx,
                        vy,
                        ..old(self)@.pieces[place_of(old(self)@.pieces, id).unwrap()]
                    },
                ),
                ..old(self)@
            }),
            !found ==> final(self)@ == old(self)@,
    {
        match find_piece(&self.pieces, id) {
            None => false,
            Some(place) => {
                let piece = self.pieces[place];
                self.pieces.set(place, Piece { x, y, vx, vy, ..piece });
                proof {
                    same_ids_stay_valid(old(self)@.pieces, self.pieces@, self.next_id);
                }
                true
            },
        }
    }
}

} // verus!
