use suika::constants::{CLICK_DELAY, MASS, SPAWN_HEIGHT, SPAWN_JITTER, SWEEP_INTERVAL};
use suika::game::session::Game;
use suika::game::{Phase, Piece};
use suika::resources::Fruit;
use suika::AppState;

fn started(current: usize, next: usize) -> Game {
    let mut game = Game::with_fruits(Fruit::new(current).unwrap(), Fruit::new(next).unwrap());
    game.start_with(Fruit::new(4).unwrap(), Fruit::new(4).unwrap());
    game
}

fn ids(pieces: &[Piece]) -> Vec<u64> {
    pieces.iter().map(|piece| piece.id).collect()
}

#[test]
fn new_session_waits_at_the_start_menu() {
    let mut game = Game::new();
    assert_eq!(game.state(), AppState::StartMenu);
    assert_eq!(game.score(), 0);
    assert!(game.pieces().is_empty());
    assert!(game.next_generator().current_fruit.tier() < 5);
    assert!(game.next_generator().next_fruit.tier() < 5);
    let report = game.tick_with(16_000, Some(0), &vec![], 0, Fruit::new(0).unwrap());
    assert!(report.spawned.is_empty());
    assert!(game.pieces().is_empty());
    game.start();
    assert_eq!(game.state(), AppState::InGame);
}

#[test]
fn first_click_spawns_the_current_fruit() {
    let mut game = started(2, 3);
    let report = game.tick_with(16_000, Some(50_000), &vec![], -250, Fruit::new(1).unwrap());
    assert_eq!(report.spawned.len(), 1);
    let piece = report.spawned[0];
    assert_eq!(piece.id, 0);
    assert_eq!(piece.fruit.tier(), 2);
    assert_eq!((piece.x, piece.y), (49_750, SPAWN_HEIGHT));
    assert_eq!(piece.mass, MASS);
    assert_eq!(game.pieces().len(), 1);
    assert_eq!(game.next_generator().current_fruit.tier(), 3);
    assert_eq!(game.next_generator().next_fruit.tier(), 1);
    assert!(game.next_generator().should_update_previews);
}

#[test]
fn second_click_within_the_cooldown_is_dropped() {
    let mut game = started(0, 0);
    let drawn = Fruit::new(0).unwrap();
    let first = game.tick_with(16_000, Some(0), &vec![], 0, drawn);
    assert_eq!(first.spawned.len(), 1);
    let second = game.tick_with(CLICK_DELAY - 1, Some(0), &vec![], 0, drawn);
    assert!(second.spawned.is_empty());
    assert_eq!(game.pieces().len(), 1);
    let third = game.tick_with(1, None, &vec![], 0, drawn);
    assert!(third.spawned.is_empty());
    let fourth = game.tick_with(1, Some(7_000), &vec![], 0, drawn);
    assert_eq!(fourth.spawned.len(), 1);
    assert_eq!(ids(game.pieces()), vec![0, 1]);
}

#[test]
fn two_resting_fruits_merge_and_are_swept() {
    let mut game = started(0, 0);
    let drawn = Fruit::new(0).unwrap();
    game.tick_with(16_000, Some(-20_000), &vec![], 0, drawn);
    game.tick_with(CLICK_DELAY, Some(10_000), &vec![], 0, drawn);
    assert_eq!(ids(game.pieces()), vec![0, 1]);
    assert!(game.set_motion(0, -15_600, -359_400, 0, 0));
    assert!(game.set_motion(1, 15_601, -359_401, 0, 0));
    let report = game.tick_with(16_000, None, &vec![(0, 1)], 0, drawn);
    assert_eq!(report.merges.len(), 1);
    assert_eq!(report.merges[0].entities, (1, 0));
    assert_eq!(report.spawned.len(), 1);
    let created = report.spawned[0];
    assert_eq!(created.id, 2);
    assert_eq!(created.fruit.tier(), 1);
    assert_eq!((created.x, created.y), (0, -359_401));
    assert_eq!(created.phase, Phase::Spawning);
    assert_eq!(game.score(), 1);
    assert!(report.removed.is_empty());
    assert_eq!(ids(game.pieces()), vec![0, 1, 2]);
    assert!(game.pieces()[0].mark_for_delete && game.pieces()[1].mark_for_delete);
    let later = game.tick_with(SWEEP_INTERVAL, None, &vec![], 0, drawn);
    assert_eq!(later.removed, vec![0, 1]);
    assert_eq!(ids(game.pieces()), vec![2]);
    assert_eq!(game.score(), 1);
}

#[test]
fn sweep_runs_once_per_interval() {
    let mut game = started(0, 0);
    let drawn = Fruit::new(0).unwrap();
    game.tick_with(0, Some(0), &vec![], 0, drawn);
    game.tick_with(CLICK_DELAY, Some(0), &vec![], 0, drawn);
    assert!(game.set_motion(0, -15_000, -300_000, 0, 0));
    assert!(game.set_motion(1, 15_000, -300_000, 0, 0));
    let merged = game.tick_with(0, None, &vec![(1, 0)], 0, drawn);
    assert_eq!(merged.merges.len(), 1);
    let early = game.tick_with(SWEEP_INTERVAL - CLICK_DELAY - 1, None, &vec![], 0, drawn);
    assert!(early.removed.is_empty());
    assert_eq!(game.pieces().len(), 3);
    let due = game.tick_with(1, None, &vec![], 0, drawn);
    assert_eq!(due.removed, vec![0, 1]);
    assert_eq!(game.pieces().len(), 1);
    let after = game.tick_with(SWEEP_INTERVAL, None, &vec![], 0, drawn);
    assert!(after.removed.is_empty());
    assert_eq!(game.state(), AppState::InGame);
}

#[test]
fn merged_fruit_is_skipped_for_the_rest_of_the_tick() {
    let mut game = started(0, 0);
    let drawn = Fruit::new(0).unwrap();
    game.tick_with(0, Some(0), &vec![], 0, drawn);
    game.tick_with(CLICK_DELAY, Some(0), &vec![], 0, drawn);
    assert!(game.set_motion(0, -15_000, -300_000, 0, 0));
    assert!(game.set_motion(1, 15_000, -300_000, 0, 0));
    game.tick_with(1_000_000, None, &vec![], 0, drawn);
    assert_eq!(game.state(), AppState::InGame);
    assert!(game.pieces().iter().all(|piece| piece.phase == Phase::Settled));
    assert!(game.set_motion(0, 0, 500_000, 0, 0));
    assert!(game.set_motion(1, 0, -300_000, 0, 0));
    let report = game.tick_with(16_000, None, &vec![(0, 1)], 0, drawn);
    assert_eq!(report.merges.len(), 1);
    assert!(!report.ended);
    assert_eq!(game.state(), AppState::InGame);
    assert_eq!(game.pieces()[0].mass, 2500);
    assert!(game.set_mass_percentage(1000));
    game.tick_with(16_000, None, &vec![], 0, drawn);
    assert_eq!(game.pieces()[0].mass, 2500);
    assert_eq!(game.state(), AppState::InGame);
}

#[test]
fn unmerged_settled_fruit_above_the_rim_ends_the_run_at_once() {
    let mut game = started(0, 1);
    let drawn = Fruit::new(0).unwrap();
    game.tick_with(0, Some(0), &vec![], 0, drawn);
    assert!(game.set_motion(0, 0, -300_000, 0, 0));
    game.tick_with(1_000_000, None, &vec![], 0, drawn);
    assert_eq!(game.pieces()[0].phase, Phase::Settled);
    assert_eq!(game.state(), AppState::InGame);
    assert!(game.set_motion(0, 0, 145_001, 0, 0));
    let report = game.tick_with(16_000, None, &vec![], 0, drawn);
    assert!(report.ended);
    assert_eq!(game.state(), AppState::GameOverMenu);
}

#[test]
fn settled_fruit_out_of_bounds_ends_the_run() {
    let mut game = started(0, 1);
    let drawn = Fruit::new(0).unwrap();
    game.tick_with(0, Some(0), &vec![], 0, drawn);
    let falling = game.tick_with(500_000, None, &vec![], 0, drawn);
    assert!(!falling.ended);
    assert_eq!(game.pieces()[0].phase, Phase::Spawning);
    let rested = game.tick_with(500_000, None, &vec![], 0, drawn);
    assert!(rested.ended);
    assert_eq!(game.state(), AppState::GameOverMenu);
    assert_eq!(game.pieces()[0].phase, Phase::Settled);
    let idle = game.tick_with(CLICK_DELAY, Some(0), &vec![], 0, drawn);
    assert!(idle.spawned.is_empty() && !idle.ended);
    assert_eq!(game.pieces().len(), 1);
}

#[test]
fn start_after_game_over_begins_a_fresh_run() {
    let mut game = started(0, 0);
    let drawn = Fruit::new(0).unwrap();
    game.tick_with(0, Some(0), &vec![], 0, drawn);
    game.tick_with(CLICK_DELAY, Some(0), &vec![], 0, drawn);
    game.tick_with(0, None, &vec![(0, 1)], 0, drawn);
    game.tick_with(1_000_000, None, &vec![], 0, drawn);
    assert_eq!(game.state(), AppState::GameOverMenu);
    assert_eq!(game.score(), 1);
    game.start_with(Fruit::new(3).unwrap(), Fruit::new(2).unwrap());
    assert_eq!(game.state(), AppState::InGame);
    assert_eq!(game.score(), 0);
    assert!(game.pieces().is_empty());
    assert_eq!(game.next_generator().current_fruit.tier(), 3);
    assert_eq!(game.next_generator().next_fruit.tier(), 2);
    let report = game.tick_with(CLICK_DELAY, Some(0), &vec![], 0, drawn);
    assert_eq!(report.spawned.len(), 1);
    assert_eq!(report.spawned[0].id, 3);
}

#[test]
fn restart_clears_the_field_during_a_run() {
    let mut game = started(1, 1);
    let drawn = Fruit::new(0).unwrap();
    game.tick_with(0, Some(0), &vec![], 0, drawn);
    game.restart();
    assert_eq!(game.state(), AppState::InGame);
    assert!(game.pieces().is_empty());
    assert_eq!(game.score(), 0);
    assert!(game.next_generator().current_fruit.tier() < 5);
    assert!(game.next_generator().next_fruit.tier() < 5);
}

#[test]
fn changed_mass_reaches_the_pile_in_the_same_tick() {
    let mut game = started(0, 0);
    let drawn = Fruit::new(0).unwrap();
    game.tick_with(0, Some(0), &vec![], 0, drawn);
    game.tick_with(CLICK_DELAY, Some(0), &vec![], 0, drawn);
    assert_eq!(game.pieces()[0].time_since_spawn.timer.remaining, 200_000);
    assert_eq!(game.pieces()[1].time_since_spawn.timer.remaining, 200_000);
    game.set_motion(0, 0, 0, 0, 0);
    game.set_motion(1, 40_000, 0, 0, -5_000);
    game.tick_with(200_000, None, &vec![], 0, drawn);
    assert_eq!(game.pieces()[0].phase, Phase::Settled);
    assert_eq!(game.pieces()[1].phase, Phase::Spawning);
    assert_eq!(game.pieces()[0].mass, 2500);
    assert!(game.set_mass_percentage(1000));
    assert!(!game.set_mass_percentage(1001));
    game.tick_with(16_000, None, &vec![], 0, drawn);
    assert_eq!(game.pieces()[0].mass, 5000);
    assert_eq!(game.pieces()[1].mass, MASS);
    assert_eq!(game.pieces()[1].phase, Phase::Spawning);
    assert!(!game.mass_setting().is_changed());
    assert!(game.set_mass_percentage(0));
    game.set_motion(1, 40_000, 0, 0, 0);
    game.tick_with(16_000, None, &vec![], 0, drawn);
    assert_eq!(game.pieces()[0].mass, 1);
    assert_eq!(game.pieces()[1].phase, Phase::Settled);
    assert_eq!(game.pieces()[1].mass, 1);
}

#[test]
fn random_tick_spawns_within_the_jitter() {
    let mut seen = Vec::new();
    for _ in 0..64 {
        let mut game = started(0, 0);
        assert!(game.has_room(0));
        let report = game.tick(16_000, Some(10_000), &vec![]);
        assert_eq!(report.spawned.len(), 1);
        let x = report.spawned[0].x;
        assert!(10_000 - SPAWN_JITTER <= x && x < 10_000 + SPAWN_JITTER);
        assert!(game.next_generator().next_fruit.tier() < 5);
        seen.push(x);
    }
    assert!(seen.iter().any(|x| *x != seen[0]));
}

#[test]
fn motion_of_an_unknown_fruit_is_refused() {
    let mut game = started(0, 0);
    assert!(!game.set_motion(0, 1, 2, 3, 4));
    game.tick_with(0, Some(0), &vec![], 0, Fruit::new(0).unwrap());
    assert!(game.set_motion(0, 1, 2, 3, 4));
    let piece = game.pieces()[0];
    assert_eq!((piece.x, piece.y, piece.vx, piece.vy), (1, 2, 3, 4));
    assert!(!game.set_motion(1, 1, 2, 3, 4));
}

#[test]
fn click_then_physics_then_the_other_stages() {
    let mut game = started(1, 1);
    let drawn = Fruit::new(2).unwrap();
    let first = game.mouse_click_with(16_000, Some(-30_000), 999, drawn).unwrap();
    assert_eq!((first.id, first.x, first.y), (0, -29_001, SPAWN_HEIGHT));
    assert!(game.set_motion(0, -29_001, 260_000, 0, -40_000));
    let report = game.advance(16_000, &vec![]);
    assert!(report.spawned.is_empty() && report.merges.is_empty() && !report.ended);
    assert_eq!(game.pieces()[0].time_since_spawn.timer.remaining, 984_000);
    assert!(game.mouse_click_with(CLICK_DELAY - 1, Some(0), 0, drawn).is_none());
    let second = game.mouse_click_with(1, Some(30_000), -1000, drawn).unwrap();
    assert_eq!((second.id, second.x), (1, 29_000));
    assert_eq!(second.fruit.tier(), 1);
    assert!(game.set_motion(0, -24_000, -300_000, 0, 0));
    assert!(game.set_motion(1, 24_000, -300_000, 0, 0));
    let report = game.advance(16_000, &vec![(1, 0)]);
    assert_eq!(report.merges.len(), 1);
    assert_eq!(report.merges[0].entities, (0, 1));
    assert_eq!(report.spawned.len(), 1);
    assert_eq!(report.spawned[0].fruit.tier(), 2);
    assert_eq!((report.spawned[0].x, report.spawned[0].y), (0, -300_000));
    assert_eq!(game.score(), 3);
}

#[test]
fn stages_are_idle_outside_a_run() {
    let mut game = Game::with_fruits(Fruit::new(0).unwrap(), Fruit::new(0).unwrap());
    assert!(game.mouse_click(16_000, Some(0)).is_none());
    let report = game.advance(SWEEP_INTERVAL, &vec![(0, 1)]);
    assert!(report.spawned.is_empty() && report.removed.is_empty() && !report.ended);
    assert_eq!(game.state(), AppState::StartMenu);
    game.start();
    assert!(game.mouse_click(0, Some(0)).is_some());
    game.start();
    assert_eq!(game.pieces().len(), 1);
}

#[test]
fn previews_are_updated_once_per_spawn() {
    let mut game = started(0, 1);
    assert!(!game.next_generator().should_update_previews);
    game.mouse_click_with(0, Some(0), 0, Fruit::new(2).unwrap());
    assert!(game.next_generator().should_update_previews);
    game.preview_updated();
    assert!(!game.next_generator().should_update_previews);
    assert_eq!(game.next_generator().current_fruit.tier(), 1);
    assert_eq!(game.next_generator().next_fruit.tier(), 2);
}

#[test]
fn merging_climbs_the_tiers() {
    let mut game = started(0, 0);
    let drawn = Fruit::new(0).unwrap();
    for id in 0..4 {
        let report = game.tick_with(CLICK_DELAY, Some(0), &vec![], 0, drawn);
        assert_eq!(report.spawned[0].id, id);
        assert!(game.set_motion(id, 40_000 * id as i32, -300_000, 0, 5_000));
    }
    let report = game.tick_with(0, None, &vec![(0, 1), (1, 2), (2, 3), (3, 0)], 0, drawn);
    assert_eq!(report.merges.len(), 2);
    assert_eq!(report.merges[0].entities, (1, 0));
    assert_eq!(report.merges[1].entities, (3, 2));
    assert_eq!(ids(&report.spawned), vec![4, 5]);
    assert_eq!((report.spawned[0].x, report.spawned[1].x), (20_000, 100_000));
    assert!(report.spawned.iter().all(|piece| piece.fruit.tier() == 1));
    assert_eq!(game.score(), 2);
    assert!(game.set_motion(4, 20_000, -300_000, 0, 5_000));
    assert!(game.set_motion(5, 100_001, -300_000, 0, 5_000));
    let report = game.tick_with(0, None, &vec![(4, 5)], 0, drawn);
    assert_eq!(report.merges.len(), 1);
    assert_eq!(ids(&report.spawned), vec![6]);
    assert_eq!(report.spawned[0].fruit.tier(), 2);
    assert_eq!(report.spawned[0].x, 60_000);
    assert_eq!(game.score(), 5);
    assert_eq!(game.pieces().iter().filter(|piece| !piece.mark_for_delete).count(), 1);
    assert_eq!(game.state(), AppState::InGame);
}
