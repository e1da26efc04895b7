use ant_farm::ant::{AiGoal, Ant, AntAI, ForageState};
use ant_farm::world::World;

#[test]
fn hunger_decays_and_clamps_at_zero() {
    let mut w = World::new();
    let mut a = Ant::new(0, 100_000, 100_000);
    a.hunger.pct = 500;
    w.ants.push(a);
    let mut b = Ant::new(1, 110_000, 100_000);
    b.hunger.pct = 10;
    w.ants.push(b);
    w.next_ent = 2;
    // 0.025 per time unit over one time unit: 25 thousandths.
    w.hunger_degrade(1000);
    assert_eq!(w.ants[0].hunger.pct, 475);
    assert_eq!(w.ants[1].hunger.pct, 0);
    w.hunger_degrade(1000);
    assert_eq!(w.ants[1].hunger.pct, 0);
}

#[test]
fn eating_agent_skips_hunger_decay() {
    let mut w = World::new();
    let mut a = Ant::new(0, 100_000, 100_000);
    a.hunger.pct = 500;
    a.forage = ForageState::Eating { food_ent: 9 };
    a.ai = AntAI { ai: AiGoal::Wait, duration: 0 };
    w.ants.push(a);
    w.next_ent = 10;
    w.hunger_degrade(1000);
    assert_eq!(w.ants[0].hunger.pct, 500);
}

#[test]
fn health_decays_only_while_starving() {
    let mut w = World::new();
    let mut starving = Ant::new(0, 100_000, 100_000);
    starving.hunger.pct = 0;
    starving.health.pct = 500;
    w.ants.push(starving);
    let mut fed = Ant::new(1, 110_000, 100_000);
    fed.hunger.pct = 500;
    fed.health.pct = 500;
    w.ants.push(fed);
    w.next_ent = 2;
    // 0.1 per time unit over two time units: 200 thousandths.
    let deaths = w.health_degrade(2000);
    assert_eq!(w.ants[0].health.pct, 300);
    assert_eq!(w.ants[1].health.pct, 500);
    assert!(deaths.is_empty());
}

#[test]
fn death_signal_goes_out_below_zero() {
    let mut w = World::new();
    let mut a = Ant::new(7, 100_000, 100_000);
    a.hunger.pct = 0;
    a.health.pct = 50;
    w.ants.push(a);
    w.next_ent = 8;
    let deaths = w.health_degrade(1000);
    assert_eq!(w.ants[0].health.pct, -50);
    assert_eq!(deaths.len(), 1);
    assert_eq!(deaths[0].ent, 7);
    // Until cleanup runs, the signal repeats every tick.
    let again = w.health_degrade(1000);
    assert_eq!(again.len(), 1);
    assert_eq!(again[0].ent, 7);
}

#[test]
fn death_leaves_food_and_removes_agent() {
    let mut w = World::new();
    let mut a = Ant::new(7, 123_000, 45_000);
    a.hunger.pct = 0;
    a.health.pct = -100;
    w.ants.push(a);
    w.next_ent = 8;
    let deaths = w.health_degrade(0);
    assert_eq!(deaths.len(), 1);
    w.ant_death_handler(&deaths);
    assert_eq!(w.ants.len(), 0);
    assert_eq!(w.foods.len(), 1);
    assert_eq!(w.foods[0].quantity, 1000);
    assert_eq!(w.foods[0].position.x, 123_000);
    assert_eq!(w.foods[0].position.y, 45_000);
    assert_eq!(w.foods[0].ent, 8);
    assert_eq!(w.next_ent, 9);
    // A repeated signal for an agent already gone is a no-op.
    w.ant_death_handler(&deaths);
    assert_eq!(w.ants.len(), 0);
    assert_eq!(w.foods.len(), 1);
    assert_eq!(w.next_ent, 9);
}
