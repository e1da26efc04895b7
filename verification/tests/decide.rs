use ant_farm::ant::{AiGoal, Ant, ForageState};
use ant_farm::arena::{Position, Size};
use ant_farm::food::Food;
use ant_farm::world::World;

fn food_at(ent: u64, x: i64, y: i64) -> Food {
    Food { ent, position: Position { x, y }, size: Size::square(300), quantity: 3000 }
}

#[test]
fn prune_drops_dead_entries_and_keeps_live_ones() {
    let mut w = World::new();
    w.foods.push(food_at(5, 100_000, 100_000));
    w.known_food.locs = vec![9, 5, 7];
    w.next_ent = 10;
    w.clean_food();
    assert_eq!(w.known_food.locs, vec![5]);
    // Every surviving entry names a live resource.
    for e in w.known_food.locs.iter() {
        assert!(w.foods.iter().any(|f| f.ent == *e));
    }
}

#[test]
fn discovery_adds_each_visible_resource_once() {
    let mut w = World::new();
    // Within the visibility circle: center distance 20, radii 28.285 and
    // 1.697.
    w.foods.push(food_at(5, 100_000, 120_000));
    // Far out of sight.
    w.foods.push(food_at(6, 900_000, 700_000));
    w.ants.push(Ant::new(2, 100_000, 100_000));
    w.next_ent = 7;
    w.locate_food();
    assert_eq!(w.known_food.locs, vec![5]);
    // A second pass never duplicates an entry.
    w.locate_food();
    assert_eq!(w.known_food.locs, vec![5]);
}

#[test]
fn hungry_idle_agent_seeks_nearest_known_food() {
    let mut w = World::new();
    let near = food_at(5, 130_000, 100_000);
    let far = food_at(6, 300_000, 100_000);
    w.foods.push(far);
    w.foods.push(near);
    w.known_food.locs = vec![6, 5];
    let mut a = Ant::new(2, 100_000, 100_000);
    a.hunger.pct = 100;
    w.ants.push(a);
    w.next_ent = 7;
    w.add_food_goal();
    assert!(matches!(w.ants[0].forage, ForageState::Seeking));
    match w.ants[0].ai.ai {
        AiGoal::Destination { dest } => assert_eq!(dest, near.position),
        ref g => panic!("expected a destination goal, got {:?}", g),
    }
    assert_eq!(w.ants[0].ai.duration, 100_000_000);
}

#[test]
fn destination_ties_break_to_first_registry_entry() {
    let mut w = World::new();
    // Two live resources at the same distance, either side of the agent.
    let left = food_at(5, 70_000, 100_000);
    let right = food_at(6, 130_000, 100_000);
    w.foods.push(right);
    w.foods.push(left);
    w.known_food.locs = vec![6, 5];
    let mut a = Ant::new(2, 100_000, 100_000);
    a.hunger.pct = 100;
    w.ants.push(a);
    w.next_ent = 7;
    w.add_food_goal();
    match w.ants[0].ai.ai {
        AiGoal::Destination { dest } => assert_eq!(dest, right.position),
        ref g => panic!("expected a destination goal, got {:?}", g),
    }
}

#[test]
fn sated_or_busy_agents_get_no_goal() {
    let mut w = World::new();
    w.foods.push(food_at(5, 130_000, 100_000));
    w.known_food.locs = vec![5];
    // Hunger at the threshold: 0.22 is not below 0.22.
    let mut sated = Ant::new(2, 100_000, 100_000);
    sated.hunger.pct = 220;
    w.ants.push(sated);
    // Already eating: left alone even when starving.
    let mut busy = Ant::new(3, 100_000, 110_000);
    busy.hunger.pct = 0;
    busy.forage = ForageState::Eating { food_ent: 5 };
    busy.ai.ai = AiGoal::Wait;
    w.ants.push(busy);
    w.next_ent = 6;
    w.add_food_goal();
    assert!(matches!(w.ants[0].forage, ForageState::Idle));
    assert!(matches!(w.ants[0].ai.ai, AiGoal::Unset));
    assert!(matches!(w.ants[1].forage, ForageState::Eating { food_ent: 5 }));
}

#[test]
fn empty_registry_assigns_nothing() {
    let mut w = World::new();
    w.foods.push(food_at(5, 130_000, 100_000));
    let mut a = Ant::new(2, 100_000, 100_000);
    a.hunger.pct = 100;
    w.ants.push(a);
    w.next_ent = 6;
    w.add_food_goal();
    assert!(matches!(w.ants[0].forage, ForageState::Idle));
}
