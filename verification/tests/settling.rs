use suika::constants::{GAME_OVER_HEIGHT, GRACE_PERIOD, MASS};
use suika::game::game_over::check_game_over;
use suika::game::physics_manipulations::{
    change_manipulated_mass_on_slide, manipulate_mass, mark_fruits_as_alive,
};
use suika::game::{create_fruit_bundle, pos_x_in_bounds, spawn_result, Phase, Piece};
use suika::resources::{Fruit, MassSetting};
use suika::AppState;

fn fruit(id: u64, x: i32, y: i32) -> Piece {
    spawn_result(id, Fruit::new(0).unwrap(), x, y)
}

fn settled(id: u64, x: i32, y: i32) -> Piece {
    Piece { phase: Phase::Settled, ..fruit(id, x, y) }
}

#[test]
fn new_fruit_starts_spawning_with_nominal_mass() {
    let piece = fruit(1, 5, 6);
    assert_eq!(piece.phase, Phase::Spawning);
    assert_eq!(piece.mass, MASS);
    assert_eq!(piece.time_since_spawn.timer.remaining, GRACE_PERIOD);
    assert_eq!((piece.vx, piece.vy), (0, 0));
    assert!(!piece.mark_for_delete);
}

#[test]
fn fruit_settles_only_after_grace_and_at_rest() {
    let setting = MassSetting::default();
    let mut pieces = vec![fruit(1, 0, 0)];
    mark_fruits_as_alive(&mut pieces, 400_000);
    manipulate_mass(&mut pieces, &setting);
    assert_eq!(pieces[0].phase, Phase::Spawning);
    assert_eq!(pieces[0].time_since_spawn.timer.remaining, 600_000);
    pieces[0].vx = 1000;
    mark_fruits_as_alive(&mut pieces, 600_000);
    manipulate_mass(&mut pieces, &setting);
    assert_eq!(pieces[0].phase, Phase::Spawning);
    assert_eq!(pieces[0].mass, MASS);
    pieces[0].vx = 999;
    pieces[0].vy = -1000;
    manipulate_mass(&mut pieces, &setting);
    assert_eq!(pieces[0].phase, Phase::Spawning);
    pieces[0].vy = -999;
    manipulate_mass(&mut pieces, &setting);
    assert_eq!(pieces[0].phase, Phase::Settled);
    assert_eq!(pieces[0].mass, 2500);
}

#[test]
fn resting_fruit_waits_for_its_grace_period() {
    let setting = MassSetting::default();
    let mut pieces = vec![fruit(1, 0, 0)];
    mark_fruits_as_alive(&mut pieces, GRACE_PERIOD - 1);
    manipulate_mass(&mut pieces, &setting);
    assert_eq!(pieces[0].phase, Phase::Spawning);
    mark_fruits_as_alive(&mut pieces, 1);
    manipulate_mass(&mut pieces, &setting);
    assert_eq!(pieces[0].phase, Phase::Settled);
}

#[test]
fn settled_fruit_stays_settled_when_it_moves_again() {
    let mut setting = MassSetting::default();
    let mut pieces = vec![settled(1, 0, 0)];
    pieces[0].vx = 70_000;
    pieces[0].vy = -40_000;
    mark_fruits_as_alive(&mut pieces, 16_000);
    manipulate_mass(&mut pieces, &setting);
    change_manipulated_mass_on_slide(&mut pieces, &mut setting);
    assert_eq!(pieces[0].phase, Phase::Settled);
}

#[test]
fn changed_share_reaches_every_settled_fruit() {
    let mut setting = MassSetting::default();
    let mut pieces = vec![settled(1, 0, 0), fruit(2, 0, 10), settled(3, 0, 20), settled(4, 0, 30)];
    assert!(setting.set_percentage(200));
    assert!(setting.is_changed());
    change_manipulated_mass_on_slide(&mut pieces, &mut setting);
    assert_eq!(pieces[0].mass, 1000);
    assert_eq!(pieces[1].mass, MASS);
    assert_eq!(pieces[2].mass, 1000);
    assert_eq!(pieces[3].mass, 1000);
    assert!(!setting.is_changed());
    assert_eq!(setting.percentage(), 200);
}

#[test]
fn unchanged_share_leaves_the_pile_alone() {
    let mut setting = MassSetting::default();
    let mut pieces = vec![settled(1, 0, 0), settled(2, 0, 10)];
    pieces[0].mass = 7;
    change_manipulated_mass_on_slide(&mut pieces, &mut setting);
    assert_eq!(pieces[0].mass, 7);
    assert_eq!(pieces[1].mass, MASS);
}

#[test]
fn marked_fruit_is_skipped_by_settling() {
    let mut setting = MassSetting::default();
    let mut pieces = vec![fruit(1, 0, 0), settled(2, 0, 10)];
    pieces[0].mark_for_delete = true;
    pieces[1].mark_for_delete = true;
    let before = pieces.clone();
    assert!(setting.set_percentage(1000));
    mark_fruits_as_alive(&mut pieces, GRACE_PERIOD);
    manipulate_mass(&mut pieces, &setting);
    change_manipulated_mass_on_slide(&mut pieces, &mut setting);
    assert_eq!(pieces, before);
}

#[test]
fn spawning_fruit_never_ends_the_run() {
    let mut state = AppState::InGame;
    let pieces = vec![fruit(1, 0, GAME_OVER_HEIGHT + 100_000), fruit(2, 900_000, 0)];
    assert!(!check_game_over(&pieces, &mut state));
    assert_eq!(state, AppState::InGame);
}

#[test]
fn settled_fruit_above_the_rim_ends_the_run() {
    let mut state = AppState::InGame;
    let mut pieces = vec![settled(1, 0, GAME_OVER_HEIGHT)];
    assert!(!check_game_over(&pieces, &mut state));
    pieces[0].y = GAME_OVER_HEIGHT + 1;
    assert!(check_game_over(&pieces, &mut state));
    assert_eq!(state, AppState::GameOverMenu);
    assert!(!check_game_over(&pieces, &mut state));
    assert_eq!(state, AppState::GameOverMenu);
}

#[test]
fn settled_fruit_beyond_a_wall_ends_the_run() {
    for (x, spills) in [(230_000, false), (230_001, true), (-230_000, false), (-230_001, true)] {
        let mut state = AppState::InGame;
        let pieces = vec![settled(1, x, 0)];
        assert_eq!(check_game_over(&pieces, &mut state), spills);
    }
}

#[test]
fn marked_fruit_and_idle_screen_do_not_end_the_run() {
    let mut pieces = vec![settled(1, 0, GAME_OVER_HEIGHT + 1)];
    let mut menu = AppState::StartMenu;
    assert!(!check_game_over(&pieces, &mut menu));
    assert_eq!(menu, AppState::StartMenu);
    pieces[0].mark_for_delete = true;
    let mut state = AppState::InGame;
    assert!(!check_game_over(&pieces, &mut state));
    assert_eq!(state, AppState::InGame);
}

#[test]
fn spawn_position_is_kept_inside_the_container() {
    assert_eq!(pos_x_in_bounds(-300_000, 31_200), -193_400);
    assert_eq!(pos_x_in_bounds(300_000, 31_200), 193_400);
    assert_eq!(pos_x_in_bounds(-193_399, 31_200), -193_399);
    assert_eq!(pos_x_in_bounds(12_345, 31_200), 12_345);
    assert_eq!(pos_x_in_bounds(0, 244_800), 0);
    assert_eq!(pos_x_in_bounds(500_000, 244_800), 86_600);
    assert_eq!(pos_x_in_bounds(i64::MIN, u32::MAX), -209_000 + 2_147_483_647);
    let piece = create_fruit_bundle(9, 1_000_000, 267_400, Fruit::new(10).unwrap());
    assert_eq!((piece.id, piece.x, piece.y), (9, 86_600, 267_400));
}
