use ant_farm::ant::{AiGoal, Ant, AntAI, ForageState};
use ant_farm::arena::{Position, Size};
use ant_farm::food::Food;
use ant_farm::world::World;

fn eating_ant(ent: u64, x: i64, y: i64, food_ent: u64, hunger: i64) -> Ant {
    let mut a = Ant::new(ent, x, y);
    a.hunger.pct = hunger;
    a.forage = ForageState::Eating { food_ent };
    a.ai = AntAI { ai: AiGoal::Wait, duration: 0 };
    a
}

#[test]
fn eating_depletes_and_clears_marker() {
    // A resource of 0.4 units against the eat rate of 0.25 per time unit
    // lasts 1.6 time units; the pass that drains it also clears the
    // eating marker and drops the resource.
    let mut w = World::new();
    w.foods.push(Food {
        ent: 1,
        position: Position { x: 100_000, y: 100_000 },
        size: Size::square(300),
        quantity: 400,
    });
    w.ants.push(eating_ant(2, 100_000, 100_000, 1, 0));
    w.next_ent = 3;
    for _ in 0..3 {
        w.eat_food(400);
    }
    assert_eq!(w.foods.len(), 1);
    assert_eq!(w.foods[0].quantity, 100);
    assert!(matches!(w.ants[0].forage, ForageState::Eating { food_ent: 1 }));
    w.eat_food(400);
    assert_eq!(w.foods.len(), 0);
    assert!(matches!(w.ants[0].forage, ForageState::Idle));
    assert!(matches!(w.ants[0].ai.ai, AiGoal::Unset));
    assert_eq!(w.ants[0].hunger.pct, 400);
}

#[test]
fn arrival_requires_strict_threshold_and_live_target() {
    let mut w = World::new();
    let dest = Position { x: 106_822, y: 100_000 };
    w.foods.push(Food { ent: 1, position: dest, size: Size::square(300), quantity: 3000 });
    w.known_food.locs.push(1);
    let mut a = Ant::new(2, 100_000, 100_000);
    a.forage = ForageState::Seeking;
    a.ai = AntAI { ai: AiGoal::Destination { dest }, duration: 100_000_000 };
    w.ants.push(a);
    w.next_ent = 3;

    // Clearance is exactly 0.6: the strict comparison fails, the agent
    // keeps seeking.
    w.start_eat_food();
    assert!(matches!(w.ants[0].forage, ForageState::Seeking));

    // One thousandth closer: clearance 0.599, the agent starts eating
    // and holds position.
    w.ants[0].position.x = 100_001;
    w.start_eat_food();
    assert!(matches!(w.ants[0].forage, ForageState::Eating { food_ent: 1 }));
    assert!(matches!(w.ants[0].ai.ai, AiGoal::Wait));
}

#[test]
fn seeker_resets_when_target_gone() {
    let mut w = World::new();
    let dest = Position { x: 101_000, y: 100_000 };
    w.known_food.locs.push(7);
    let mut a = Ant::new(2, 100_000, 100_000);
    a.forage = ForageState::Seeking;
    a.ai = AntAI { ai: AiGoal::Destination { dest }, duration: 100_000_000 };
    w.ants.push(a);
    w.next_ent = 8;
    // The registry entry is stale and nothing sits at the destination.
    w.start_eat_food();
    assert!(matches!(w.ants[0].forage, ForageState::Idle));
    assert!(matches!(w.ants[0].ai.ai, AiGoal::Unset));
}

#[test]
fn eater_resets_when_resource_gone() {
    let mut w = World::new();
    w.ants.push(eating_ant(2, 100_000, 100_000, 9, 300));
    w.next_ent = 10;
    w.eat_food(100);
    assert!(matches!(w.ants[0].forage, ForageState::Idle));
    assert!(matches!(w.ants[0].ai.ai, AiGoal::Unset));
    assert_eq!(w.ants[0].hunger.pct, 300);
}

#[test]
fn eater_stops_when_full() {
    let mut w = World::new();
    w.foods.push(Food {
        ent: 1,
        position: Position { x: 100_000, y: 100_000 },
        size: Size::square(300),
        quantity: 3000,
    });
    w.ants.push(eating_ant(2, 100_000, 100_000, 1, 900));
    w.next_ent = 3;
    w.eat_food(1000);
    // 900 + 250 overshoots: hunger clamps at full and the meal ends.
    assert_eq!(w.ants[0].hunger.pct, 1000);
    assert!(matches!(w.ants[0].forage, ForageState::Idle));
    assert_eq!(w.foods[0].quantity, 2750);
}

#[test]
fn concurrent_eaters_can_drive_quantity_negative() {
    // Two agents at one resource of 0.3 units, eating 0.25 each this
    // tick: the first leaves 0.05, the second drives it to -0.2 and the
    // store drops it at the end of the pass.  The first agent's marker
    // survives the tick and resets on the next pass.
    let mut w = World::new();
    w.foods.push(Food {
        ent: 1,
        position: Position { x: 100_000, y: 100_000 },
        size: Size::square(300),
        quantity: 300,
    });
    w.ants.push(eating_ant(2, 100_000, 100_000, 1, 0));
    w.ants.push(eating_ant(3, 101_000, 100_000, 1, 0));
    w.next_ent = 4;
    w.eat_food(1000);
    assert_eq!(w.foods.len(), 0);
    assert!(matches!(w.ants[0].forage, ForageState::Eating { food_ent: 1 }));
    assert!(matches!(w.ants[1].forage, ForageState::Idle));
    assert_eq!(w.ants[0].hunger.pct, 250);
    assert_eq!(w.ants[1].hunger.pct, 250);
    w.eat_food(1000);
    assert!(matches!(w.ants[0].forage, ForageState::Idle));
    assert_eq!(w.ants[0].hunger.pct, 250);
}
