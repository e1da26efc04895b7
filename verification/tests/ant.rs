use ant_farm::ant::{AiGoal, Ant, AntAI, Health, Hunger, VisibleRange, generate_move_weights};

#[test]
fn move_weight_tables_match_the_bias() {
    // Candidate order: N, E, S, W, NE, SE, SW, NW.
    assert_eq!(generate_move_weights(AiGoal::North), vec![16, 4, 1, 4, 8, 1, 1, 8]);
    assert_eq!(generate_move_weights(AiGoal::East), vec![4, 16, 4, 1, 8, 8, 1, 1]);
    assert_eq!(generate_move_weights(AiGoal::South), vec![1, 4, 16, 4, 1, 8, 8, 1]);
    assert_eq!(generate_move_weights(AiGoal::West), vec![4, 1, 4, 16, 1, 1, 8, 8]);
    assert_eq!(generate_move_weights(AiGoal::NE), vec![4, 4, 1, 1, 16, 1, 1, 1]);
    assert_eq!(generate_move_weights(AiGoal::SE), vec![1, 4, 4, 1, 1, 16, 1, 1]);
    assert_eq!(generate_move_weights(AiGoal::SW), vec![1, 1, 4, 4, 1, 1, 16, 1]);
    assert_eq!(generate_move_weights(AiGoal::NW), vec![4, 1, 1, 4, 1, 1, 1, 16]);
    assert_eq!(generate_move_weights(AiGoal::Random), vec![1, 1, 1, 1, 1, 1, 1, 1]);
}

#[test]
fn random_move_ai_rolls_a_directional_goal() {
    for _ in 0..50 {
        let ai = AntAI::random_move_ai();
        assert_eq!(ai.duration, 5_000);
        assert!(!matches!(ai.ai, AiGoal::Unset));
        assert!(!matches!(ai.ai, AiGoal::Wait));
        assert!(!matches!(ai.ai, AiGoal::Random));
        assert!(!matches!(ai.ai, AiGoal::Destination { .. }));
    }
}

#[test]
fn vitals_start_full() {
    assert_eq!(Health::full().pct, 1000);
    assert_eq!(Hunger::full().pct, 1000);
}

#[test]
fn visible_range_wraps_a_square_size() {
    let v = VisibleRange::new(5_000);
    assert_eq!(v.size.width, 5_000);
    assert_eq!(v.size.height, 5_000);
}

#[test]
fn new_ant_starts_idle_and_well_fed() {
    let a = Ant::new(3, 150_000, 250_000);
    assert_eq!(a.ent, 3);
    assert_eq!(a.position.x, 150_000);
    assert_eq!(a.position.y, 250_000);
    assert_eq!(a.size.width, 600);
    assert_eq!(a.health.pct, 1000);
    assert_eq!(a.hunger.pct, 1000);
    assert_eq!(a.visibility.size.width, 5_000);
    assert!(matches!(a.ai.ai, AiGoal::Unset));
    assert!(!a.queen);
    let q = Ant::queen(4, 150_000, 250_000);
    assert!(q.queen);
    assert_eq!(q.size.width, 2_000);
}
