use ant_farm::ant::AiGoal;
use ant_farm::arena::{ARENA_HEIGHT, ARENA_WIDTH};
use ant_farm::food::FoodCreateEvent;
use ant_farm::world::World;

#[test]
fn spawn_ant_fills_colony_then_adds_queen() {
    let mut w = World::new();
    w.spawn_ant();
    assert_eq!(w.ants.len(), 31);
    for (i, a) in w.ants.iter().enumerate() {
        assert_eq!(a.ent, i as u64);
        assert_eq!(a.position.x, 200_000);
        assert_eq!(a.position.y, 200_000);
        assert_eq!(a.health.pct, 1000);
        assert_eq!(a.hunger.pct, 1000);
        assert!(matches!(a.ai.ai, AiGoal::Unset));
        if i == 30 {
            assert!(a.queen);
            assert_eq!(a.size.width, 2000);
        } else {
            assert!(!a.queen);
            assert_eq!(a.size.width, 600);
        }
    }
    assert_eq!(w.next_ent, 31);
    // Re-running tops the colony up by one queen only.
    w.spawn_ant();
    assert_eq!(w.ants.len(), 32);
}

#[test]
fn food_spawner_fills_store_inside_margin() {
    let mut w = World::new();
    w.food_spawner();
    assert_eq!(w.foods.len(), 40);
    for (i, f) in w.foods.iter().enumerate() {
        assert_eq!(f.ent, i as u64);
        assert_eq!(f.quantity, 3000);
        assert!(f.position.x >= 16_000 && f.position.x < 1_584_000);
        assert!(f.position.y >= 16_000 && f.position.y < 784_000);
    }
    assert_eq!(w.next_ent, 40);
}

#[test]
fn food_create_handler_appends_a_resource() {
    let mut w = World::new();
    w.next_ent = 5;
    w.food_create_handler(&FoodCreateEvent { x: 300_000, y: 200_000, quantity: 1000 });
    assert_eq!(w.foods.len(), 1);
    assert_eq!(w.foods[0].ent, 5);
    assert_eq!(w.foods[0].position.x, 300_000);
    assert_eq!(w.foods[0].quantity, 1000);
    assert_eq!(w.next_ent, 6);
}

#[test]
fn startup_spawn_tiles_rings_the_arena() {
    let mut w = World::new();
    w.startup_spawn_tiles();
    assert_eq!(w.walls.len(), 600);
    for t in w.walls.iter() {
        let p = t.position;
        let on_row = (p.y == 0 || p.y == ARENA_HEIGHT - 8_000) && p.x >= 0
            && p.x <= ARENA_WIDTH - 8_000;
        let on_col = (p.x == 0 || p.x == ARENA_WIDTH - 8_000) && p.y >= 0
            && p.y <= ARENA_HEIGHT - 8_000;
        assert!(on_row || on_col);
        assert_eq!(p.x % 8_000, 0);
        assert_eq!(p.y % 8_000, 0);
        assert_eq!(t.size.width, 950);
    }
}

#[test]
fn begin_ai_rolls_then_counts_down_and_rerolls() {
    let mut w = World::new();
    w.spawn_ant();
    // Uninitialized agents roll a directional goal and immediately run
    // one decrement.
    w.ant_begin_ai(1000);
    for a in w.ants.iter() {
        assert!(!matches!(a.ai.ai, AiGoal::Unset));
        assert!(!matches!(a.ai.ai, AiGoal::Wait));
        assert!(!matches!(a.ai.ai, AiGoal::Random));
        assert!(!matches!(a.ai.ai, AiGoal::Destination { .. }));
        assert_eq!(a.ai.duration, 4000);
    }
    for expected in [3000, 2000, 1000] {
        w.ant_begin_ai(1000);
        assert_eq!(w.ants[0].ai.duration, expected);
    }
    // The countdown hits zero: a fresh goal with a full countdown, less
    // this tick's decrement path.
    w.ant_begin_ai(1000);
    assert_eq!(w.ants[0].ai.duration, 5000);
    assert!(!matches!(w.ants[0].ai.ai, AiGoal::Unset));
}

#[test]
fn sticky_goals_ignore_the_countdown() {
    let mut w = World::new();
    w.spawn_ant();
    w.ants[0].ai.ai = AiGoal::Wait;
    w.ants[0].ai.duration = 100;
    w.ants[1].ai.ai = AiGoal::Destination { dest: ant_farm::arena::Position { x: 5_000, y: 5_000 } };
    w.ants[1].ai.duration = 100;
    w.ant_begin_ai(1000);
    assert!(matches!(w.ants[0].ai.ai, AiGoal::Wait));
    assert_eq!(w.ants[0].ai.duration, 100);
    assert!(matches!(w.ants[1].ai.ai, AiGoal::Destination { .. }));
    assert_eq!(w.ants[1].ai.duration, 100);
}
