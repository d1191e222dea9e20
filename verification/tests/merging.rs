use suika::game::collision::{
    collision, mark_for_delete, merge_fruits, remove_used_fruits, MarkForMerge, ShouldMerge,
};
use suika::game::{find_piece, spawn_result, Piece};
use suika::resources::{Fruit, ScoreTracker};

fn fruit(id: u64, tier: usize, x: i32, y: i32) -> Piece {
    spawn_result(id, Fruit::new(tier).unwrap(), x, y)
}

fn resolve(events: &[(u64, u64)], pieces: &mut Vec<Piece>, score: &mut ScoreTracker) -> Vec<ShouldMerge> {
    let events = events.to_vec();
    let claims = collision(&events, pieces);
    merge_fruits(&claims, pieces, score)
}

fn pairs(merges: &[ShouldMerge]) -> Vec<(u64, u64)> {
    merges.iter().map(|merge| merge.entities).collect()
}

#[test]
fn collision_of_equal_fruits_gives_both_claims() {
    let pieces = vec![fruit(1, 2, 0, 0), fruit(2, 2, 10, 0)];
    let claims = collision(&vec![(1, 2)], &pieces);
    assert_eq!(
        claims,
        vec![
            MarkForMerge { id: 1, merge_target: 2 },
            MarkForMerge { id: 2, merge_target: 1 },
        ]
    );
}

#[test]
fn equal_pair_merges_exactly_once() {
    let mut pieces = vec![fruit(1, 0, 0, 0), fruit(2, 0, 10, 0)];
    let mut score = ScoreTracker::default();
    let merges = resolve(&[(1, 2)], &mut pieces, &mut score);
    assert_eq!(pairs(&merges), vec![(2, 1)]);
    assert_eq!(merges[0].merge_result, Fruit::new(1));
    assert!(pieces[0].mark_for_delete);
    assert!(pieces[1].mark_for_delete);
    assert_eq!(score.score, 1);
}

#[test]
fn repeated_collision_does_not_merge_twice() {
    let mut pieces = vec![fruit(1, 3, 0, 0), fruit(2, 3, 10, 0)];
    let mut score = ScoreTracker::default();
    let merges = resolve(&[(1, 2), (2, 1), (1, 2)], &mut pieces, &mut score);
    assert_eq!(pairs(&merges), vec![(2, 1)]);
    assert_eq!(score.score, 10);
}

#[test]
fn unequal_tiers_never_merge() {
    let mut pieces = vec![fruit(1, 0, 0, 0), fruit(2, 1, 10, 0), fruit(3, 2, 20, 0)];
    let mut score = ScoreTracker::default();
    let claims = collision(&vec![(1, 2), (2, 3), (3, 1)], &pieces);
    assert!(claims.is_empty());
    let merges = merge_fruits(&claims, &mut pieces, &mut score);
    assert!(merges.is_empty());
    assert!(pieces.iter().all(|piece| !piece.mark_for_delete));
    assert_eq!(score.score, 0);
}

#[test]
fn claims_of_unequal_tiers_are_dropped_by_the_pass_too() {
    let mut pieces = vec![fruit(1, 0, 0, 0), fruit(2, 1, 10, 0)];
    let mut score = ScoreTracker::default();
    let claims = vec![
        MarkForMerge { id: 1, merge_target: 2 },
        MarkForMerge { id: 2, merge_target: 1 },
    ];
    let merges = merge_fruits(&claims, &mut pieces, &mut score);
    assert!(merges.is_empty());
    assert!(!pieces[0].mark_for_delete && !pieces[1].mark_for_delete);
}

#[test]
fn three_touching_fruits_merge_one_pair() {
    let mut pieces = vec![fruit(1, 4, 0, 0), fruit(2, 4, 10, 0), fruit(3, 4, 5, 8)];
    let mut score = ScoreTracker::default();
    let merges = resolve(&[(1, 2), (2, 3), (1, 3)], &mut pieces, &mut score);
    assert_eq!(pairs(&merges), vec![(2, 1)]);
    assert!(pieces[0].mark_for_delete);
    assert!(pieces[1].mark_for_delete);
    assert!(!pieces[2].mark_for_delete);
    assert_eq!(score.score, 15);
}

#[test]
fn first_collision_in_the_list_wins_among_three() {
    let mut pieces = vec![fruit(1, 4, 0, 0), fruit(2, 4, 10, 0), fruit(3, 4, 5, 8)];
    let mut score = ScoreTracker::default();
    let merges = resolve(&[(2, 3), (1, 3), (1, 2)], &mut pieces, &mut score);
    assert_eq!(pairs(&merges), vec![(3, 2)]);
    assert!(!pieces[0].mark_for_delete);
    assert!(pieces[1].mark_for_delete);
    assert!(pieces[2].mark_for_delete);
}

#[test]
fn left_over_fruit_merges_in_a_later_pass() {
    let mut pieces = vec![
        fruit(1, 0, 0, 0),
        fruit(2, 0, 10, 0),
        fruit(3, 0, 5, 8),
        fruit(4, 0, 5, 16),
    ];
    let mut score = ScoreTracker::default();
    let first = resolve(&[(1, 2), (2, 3), (1, 3)], &mut pieces, &mut score);
    assert_eq!(pairs(&first), vec![(2, 1)]);
    let second = resolve(&[(1, 3), (3, 4)], &mut pieces, &mut score);
    assert_eq!(pairs(&second), vec![(4, 3)]);
    assert!(pieces.iter().all(|piece| piece.mark_for_delete));
}

#[test]
fn chain_of_four_merges_two_pairs() {
    let mut pieces = vec![
        fruit(1, 1, 0, 0),
        fruit(2, 1, 10, 0),
        fruit(3, 1, 20, 0),
        fruit(4, 1, 30, 0),
    ];
    let mut score = ScoreTracker::default();
    let merges = resolve(&[(1, 2), (2, 3), (3, 4)], &mut pieces, &mut score);
    assert_eq!(pairs(&merges), vec![(2, 1), (4, 3)]);
    assert_eq!(score.score, 6);
}

#[test]
fn largest_fruits_vanish_without_score() {
    let mut pieces = vec![fruit(1, 10, 0, 0), fruit(2, 10, 10, 0)];
    let mut score = ScoreTracker { score: 77 };
    let merges = resolve(&[(1, 2)], &mut pieces, &mut score);
    assert_eq!(merges.len(), 1);
    assert_eq!(merges[0].merge_result, None);
    assert_eq!(score.score, 77);
    assert!(pieces[0].mark_for_delete && pieces[1].mark_for_delete);
}

#[test]
fn merge_creates_next_tier_at_the_midpoint() {
    let mut pieces = vec![fruit(1, 5, -3, 5), fruit(2, 5, 4, 10)];
    let mut score = ScoreTracker { score: 100 };
    let merges = resolve(&[(1, 2)], &mut pieces, &mut score);
    assert_eq!(merges.len(), 1);
    assert_eq!(merges[0].merge_result.unwrap().tier(), 6);
    assert_eq!(merges[0].translation, ((4, 10), (-3, 5)));
    assert_eq!(merges[0].new_x(), 0);
    assert_eq!(merges[0].new_y(), 7);
    assert_eq!(score.score, 121);
}

#[test]
fn midpoint_rounds_down_below_zero() {
    let merge = ShouldMerge {
        entities: (1, 2),
        merge_result: None,
        translation: ((-3, -7), (-4, 2)),
    };
    assert_eq!(merge.new_x(), -4);
    assert_eq!(merge.new_y(), -3);
    let wide = ShouldMerge {
        entities: (1, 2),
        merge_result: None,
        translation: ((i32::MAX, i32::MIN), (i32::MAX, i32::MIN)),
    };
    assert_eq!(wide.new_x(), i32::MAX);
    assert_eq!(wide.new_y(), i32::MIN);
}

#[test]
fn claim_without_answer_dissolves() {
    let mut pieces = vec![fruit(1, 0, 0, 0), fruit(2, 0, 10, 0), fruit(3, 0, 20, 0)];
    let mut score = ScoreTracker::default();
    let claims = vec![
        MarkForMerge { id: 1, merge_target: 2 },
        MarkForMerge { id: 2, merge_target: 3 },
        MarkForMerge { id: 3, merge_target: 1 },
    ];
    let merges = merge_fruits(&claims, &mut pieces, &mut score);
    assert!(merges.is_empty());
    assert!(pieces.iter().all(|piece| !piece.mark_for_delete));
}

#[test]
fn waiting_claim_is_not_replaced_by_a_later_one() {
    let mut pieces = vec![fruit(1, 0, 0, 0), fruit(2, 0, 10, 0), fruit(3, 0, 20, 0)];
    let mut score = ScoreTracker::default();
    let claims = vec![
        MarkForMerge { id: 1, merge_target: 2 },
        MarkForMerge { id: 1, merge_target: 3 },
        MarkForMerge { id: 3, merge_target: 1 },
        MarkForMerge { id: 2, merge_target: 1 },
    ];
    let merges = merge_fruits(&claims, &mut pieces, &mut score);
    assert_eq!(pairs(&merges), vec![(2, 1)]);
    assert!(!pieces[2].mark_for_delete);
}

#[test]
fn collision_with_a_gone_or_marked_fruit_is_ignored() {
    let mut pieces = vec![fruit(1, 0, 0, 0), fruit(2, 0, 10, 0)];
    assert!(collision(&vec![(1, 9), (9, 2)], &pieces).is_empty());
    assert!(mark_for_delete(&mut pieces, 2));
    assert!(collision(&vec![(1, 2)], &pieces).is_empty());
    let mut score = ScoreTracker::default();
    let claims = vec![
        MarkForMerge { id: 1, merge_target: 2 },
        MarkForMerge { id: 2, merge_target: 1 },
    ];
    assert!(merge_fruits(&claims, &mut pieces, &mut score).is_empty());
    assert!(!pieces[0].mark_for_delete);
}

#[test]
fn fruit_does_not_merge_with_itself() {
    let mut pieces = vec![fruit(1, 0, 0, 0)];
    let mut score = ScoreTracker::default();
    assert!(collision(&vec![(1, 1)], &pieces).is_empty());
    let claims = vec![
        MarkForMerge { id: 1, merge_target: 1 },
        MarkForMerge { id: 1, merge_target: 1 },
    ];
    assert!(merge_fruits(&claims, &mut pieces, &mut score).is_empty());
    assert!(!pieces[0].mark_for_delete);
}

#[test]
fn marking_is_idempotent_and_sweep_removes_the_marked() {
    let mut pieces = vec![fruit(1, 0, 0, 0), fruit(2, 1, 10, 0), fruit(3, 2, 20, 0)];
    assert!(mark_for_delete(&mut pieces, 2));
    let once = pieces.clone();
    assert!(mark_for_delete(&mut pieces, 2));
    assert_eq!(pieces, once);
    assert!(!mark_for_delete(&mut pieces, 7));
    assert_eq!(pieces, once);
    let removed = remove_used_fruits(&mut pieces);
    assert_eq!(removed, vec![2]);
    assert_eq!(pieces, vec![fruit(1, 0, 0, 0), fruit(3, 2, 20, 0)]);
    assert!(remove_used_fruits(&mut pieces).is_empty());
    assert_eq!(pieces.len(), 2);
}

#[test]
fn find_piece_returns_the_first_place() {
    let pieces = vec![fruit(5, 0, 0, 0), fruit(6, 0, 1, 0), fruit(5, 1, 2, 0)];
    assert_eq!(find_piece(&pieces, 5), Some(0));
    assert_eq!(find_piece(&pieces, 6), Some(1));
    assert_eq!(find_piece(&pieces, 7), None);
}

#[test]
fn merge_keeps_everything_but_the_marks() {
    let before = vec![fruit(1, 2, 3, 4), fruit(2, 2, 5, 6), fruit(3, 7, 8, 9)];
    let mut pieces = before.clone();
    let mut score = ScoreTracker::default();
    resolve(&[(2, 1), (3, 1)], &mut pieces, &mut score);
    assert_eq!(pieces.len(), 3);
    assert_eq!(pieces[0], Piece { mark_for_delete: true, ..before[0] });
    assert_eq!(pieces[1], Piece { mark_for_delete: true, ..before[1] });
    assert_eq!(pieces[2], before[2]);
}
