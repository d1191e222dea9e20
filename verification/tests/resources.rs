use suika::resources::{Fruit, MassSetting, NextGenerator, ScoreTracker, SpawnTime, Timer};

#[test]
fn fruit_table_values() {
    let gura = Fruit::new(0).unwrap();
    assert_eq!(gura.size(), 31_200);
    assert_eq!(gura.score(), 0);
    assert_eq!(gura.file_name(), "gura.png");
    let sana = Fruit::new(10).unwrap();
    assert_eq!(sana.size(), 244_800);
    assert_eq!(sana.score(), 55);
    assert_eq!(sana.file_name(), "sana.png");
    assert!(Fruit::new(11).is_none());
}

#[test]
fn next_draws_a_spawnable_preview() {
    let mut generator =
        NextGenerator::from_fruits(Fruit::new(9).unwrap(), Fruit::new(8).unwrap());
    for _ in 0..200 {
        generator.next();
        assert!(generator.next_fruit.tier() < 5);
        assert!(generator.should_update_previews);
    }
    assert!(generator.current_fruit.tier() < 5);
}

#[test]
fn timer_counts_down_and_stops() {
    let mut timer = Timer::from_micros(10);
    timer.tick(4);
    assert_eq!(timer.remaining, 6);
    assert!(!timer.finished());
    timer.tick(7);
    assert_eq!(timer.remaining, 0);
    assert!(timer.finished());
    let gate = SpawnTime::default();
    assert!(gate.timer.finished());
}

#[test]
fn mass_is_linear_in_the_share() {
    let mut setting = MassSetting::default();
    assert_eq!(setting.get_mass(), 2500);
    assert!(setting.set_percentage(0));
    assert_eq!(setting.get_mass(), 1);
    assert!(setting.set_percentage(1000));
    assert_eq!(setting.get_mass(), 5000);
    assert!(!setting.set_percentage(1001));
    assert_eq!(setting.percentage(), 1000);
    let mut score = ScoreTracker::default();
    score.add_score(3);
    score.add_score(6);
    assert_eq!(score.score, 9);
    score.reset();
    assert_eq!(score.score, 0);
}

#[test]
fn random_previews_vary() {
    let mut generator = NextGenerator::default();
    assert!(generator.current_fruit.tier() < 5);
    assert!(generator.next_fruit.tier() < 5);
    assert!(!generator.should_update_previews);
    let mut seen = Vec::new();
    for _ in 0..200 {
        generator.next();
        seen.push(generator.next_fruit.tier());
    }
    assert!(seen.iter().any(|tier| *tier != seen[0]));
    generator.preview_updated();
    assert!(!generator.should_update_previews);
}

#[test]
fn largest_fruit_has_no_successor() {
    for tier in 0..10 {
        let merged = Fruit::new(tier).unwrap().merge().unwrap();
        assert_eq!(merged.tier(), tier + 1);
        assert!(merged.size() > Fruit::new(tier).unwrap().size());
    }
    assert!(Fruit::new(10).unwrap().merge().is_none());
    let fruit = Fruit::new(6).unwrap();
    assert_eq!(fruit.clone(), fruit);
}
