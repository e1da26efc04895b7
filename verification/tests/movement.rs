use ant_farm::ant::{AiGoal, Ant, AntAI};
use ant_farm::arena::{Collides, Position, Size};
use ant_farm::world::World;

fn walker(ent: u64, x: i64, y: i64, goal: AiGoal) -> Ant {
    let mut a = Ant::new(ent, x, y);
    a.ai = AntAI { ai: goal, duration: 5_000 };
    a
}

#[test]
fn destination_step_moves_toward_target() {
    let mut w = World::new();
    let dest = Position { x: 400_000, y: 200_000 };
    let mut a = Ant::new(0, 200_000, 200_000);
    a.ai = AntAI { ai: AiGoal::Destination { dest }, duration: 100_000_000 };
    w.ants.push(a);
    w.next_ent = 1;
    // One time unit at speed 50: the agent covers 50 units due east.
    w.ant_movement(1000);
    assert_eq!(w.ants[0].position.x, 250_000);
    assert_eq!(w.ants[0].position.y, 200_000);
    // The step never overshoots: from 50 units out it lands exactly on
    // the destination.
    w.ants[0].position.x = 350_000;
    w.ant_movement(2000);
    assert_eq!(w.ants[0].position.x, 400_000);
    assert_eq!(w.ants[0].position.y, 200_000);
}

#[test]
fn wait_and_unset_hold_position() {
    let mut w = World::new();
    w.ants.push(walker(0, 300_000, 300_000, AiGoal::Wait));
    w.ants.push(walker(1, 310_000, 300_000, AiGoal::Unset));
    w.next_ent = 2;
    w.ant_movement(1000);
    assert_eq!(w.ants[0].position, Position { x: 300_000, y: 300_000 });
    assert_eq!(w.ants[1].position, Position { x: 310_000, y: 300_000 });
}

#[test]
fn walk_lands_on_a_candidate_offset() {
    let mut w = World::new();
    w.ants.push(walker(0, 300_000, 300_000, AiGoal::Random));
    w.next_ent = 1;
    // 0.1 time units at speed 50: offsets of 5 units.
    w.ant_movement(100);
    let p = w.ants[0].position;
    let dx = p.x - 300_000;
    let dy = p.y - 300_000;
    assert!(dx == -5_000 || dx == 0 || dx == 5_000);
    assert!(dy == -5_000 || dy == 0 || dy == 5_000);
    assert!(!(dx == 0 && dy == 0));
}

#[test]
fn walk_takes_the_single_legal_candidate() {
    let mut w = World::new();
    let start = Position { x: 300_000, y: 300_000 };
    w.ants.push(walker(0, start.x, start.y, AiGoal::North));
    w.next_ent = 1;
    // Blanket seven of the eight candidate offsets (distance 5 units)
    // with small obstacles; only the northern step stays legal.
    let d: i64 = 5_000;
    let blocked = [
        (start.x + d, start.y),
        (start.x, start.y - d),
        (start.x - d, start.y),
        (start.x + d, start.y + d),
        (start.x + d, start.y - d),
        (start.x - d, start.y - d),
        (start.x - d, start.y + d),
    ];
    for (x, y) in blocked.iter() {
        w.walls.push(Collides { position: Position { x: *x, y: *y }, size: Size::square(100) });
    }
    w.ant_movement(100);
    assert_eq!(w.ants[0].position, Position { x: start.x, y: start.y + d });
}

#[test]
fn boxed_in_agent_stands_still() {
    let mut w = World::new();
    let start = Position { x: 300_000, y: 300_000 };
    w.ants.push(walker(0, start.x, start.y, AiGoal::Random));
    w.next_ent = 1;
    let d: i64 = 5_000;
    for xs in [-d, 0, d] {
        for ys in [-d, 0, d] {
            if xs != 0 || ys != 0 {
                w.walls.push(Collides {
                    position: Position { x: start.x + xs, y: start.y + ys },
                    size: Size::square(100),
                });
            }
        }
    }
    w.ant_movement(100);
    assert_eq!(w.ants[0].position, start);
}

#[test]
fn movement_never_leaves_the_arena() {
    let mut w = World::new();
    w.startup_spawn_tiles();
    // Walkers pressed near the corners and edges, every bias among them.
    let spots = [
        (10_000, 10_000),
        (10_000, 790_000),
        (1_590_000, 10_000),
        (1_590_000, 790_000),
        (800_000, 10_000),
        (10_000, 400_000),
        (1_590_000, 400_000),
        (800_000, 790_000),
    ];
    let goals = [
        AiGoal::North,
        AiGoal::South,
        AiGoal::East,
        AiGoal::West,
        AiGoal::NE,
        AiGoal::SE,
        AiGoal::SW,
        AiGoal::NW,
    ];
    for (i, ((x, y), g)) in spots.iter().zip(goals.iter()).enumerate() {
        w.ants.push(walker(i as u64, *x, *y, *g));
    }
    w.next_ent = 8;
    for _ in 0..40 {
        w.ant_movement(1000);
        for a in w.ants.iter() {
            assert!(a.position.x > 0 && a.position.x < w.width);
            assert!(a.position.y > 0 && a.position.y < w.height);
        }
    }
}
