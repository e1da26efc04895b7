//! Agents: vitals, visibility, the AI goal state machine and its
//! weighted-walk tables, and the foraging marker.

use vstd::prelude::*;
use crate::arena::{Position, Size, spec_in_bounds};
use crate::rng::rand_below;

verus! {

/// Base travel speed, in world units per time unit.
pub const ANT_SPEED: i64 = 50;

/// Travel speed of the queen, in world units per time unit.
pub const QUEEN_SPEED: i64 = 20;

/// Hunger lost per time unit while not eating, in thousandths.
pub const HUNGER_DEGRADATION_RATE: i64 = 25;

/// Health lost per time unit while starving, in thousandths.
pub const HEALTH_DEGRADATION_RATE: i64 = 100;

/// Hunger gained and food spent per time unit while eating, in thousandths.
pub const EAT_RATE: i64 = 250;

/// Floor of the health scale: decay saturates here, far below the death
/// threshold of zero, so the representation never underflows.
pub const HEALTH_MIN: i64 = -1_000_000;

/// Countdown handed to every freshly rolled goal, in thousandths of a
/// time unit.
pub const AI_DURATION: i64 = 5_000;

/// Health percentage in thousandths; below zero the agent is dying.
#[derive(Clone, Copy, PartialEq, Eq, Structural, Debug)]
pub struct Health {
    pub pct: i64,
}

impl Health {
    pub fn full() -> (h: Health)
        ensures
            h.pct == 1000,
    {
        Health { pct: 1000 }
    }
}

/// Hunger percentage in thousandths; zero is starving, 1000 is full.
#[derive(Clone, Copy, PartialEq, Eq, Structural, Debug)]
pub struct Hunger {
    pub pct: i64,
}

impl Hunger {
    pub fn full() -> (h: Hunger)
        ensures
            h.pct == 1000,
    {
        Hunger { pct: 1000 }
    }
}

/// How far the agent can see, as a bounding size.
#[derive(Clone, Copy, Debug)]
pub struct VisibleRange {
    pub size: Size,
}

impl VisibleRange {
    pub fn new(radius: i64) -> (v: VisibleRange)
        ensures
            v.size.width == radius,
            v.size.height == radius,
    {
        VisibleRange { size: Size::square(radius) }
    }
}

/// The AI goal: eight directional biases, a uniform walk, a destination,
/// a hold, or not yet initialized.
#[derive(Clone, Copy, PartialEq, Eq, Structural, Debug)]
pub enum AiGoal {
    North,
    South,
    East,
    West,
    NE,
    SE,
    SW,
    NW,
    Random,
    Destination { dest: Position },
    Wait,
    Unset,
}

impl AiGoal {
    /// Goals that move by the weighted random walk.
    pub open spec fn is_weighted(self) -> bool {
        match self {
            AiGoal::Destination { .. } | AiGoal::Wait | AiGoal::Unset => false,
            _ => true,
        }
    }
}

/// The goal rolled for a draw below eight.
pub open spec fn goal_of_roll(k: int) -> AiGoal {
    if k == 0 {
        AiGoal::North
    } else if k == 1 {
        AiGoal::South
    } else if k == 2 {
        AiGoal::East
    } else if k == 3 {
        AiGoal::West
    } else if k == 4 {
        AiGoal::NE
    } else if k == 5 {
        AiGoal::SE
    } else if k == 6 {
        AiGoal::SW
    } else {
        AiGoal::NW
    }
}

/// An agent's AI state: the goal and its countdown, in thousandths of a
/// time unit.
#[derive(Clone, Copy, PartialEq, Eq, Structural, Debug)]
pub struct AntAI {
    pub ai: AiGoal,
    pub duration: i64,
}

/// A freshly rolled AI: some directional bias with a full countdown.
pub open spec fn fresh_ai(a: AntAI) -> bool {
    a.duration == AI_DURATION && exists|k: int| 0 <= k < 8 && a.ai == goal_of_roll(k)
}

impl Default for AntAI {
    /// The uninitialized AI state.
    fn default() -> (a: AntAI)
        ensures
            a.ai == AiGoal::Unset,
            a.duration == 0,
    {
        AntAI { ai: AiGoal::Unset, duration: 0 }
    }
}

impl AntAI {
    /// Roll a fresh directional goal with a full countdown.
    pub fn random_move_ai() -> (a: AntAI)
        ensures
            fresh_ai(a),
    {
        let roll = rand_below(8);
        let ai = if roll == 0 {
            AiGoal::North
        } else if roll == 1 {
            AiGoal::South
        } else if roll == 2 {
            AiGoal::East
        } else if roll == 3 {
            AiGoal::West
        } else if roll == 4 {
            AiGoal::NE
        } else if roll == 5 {
            AiGoal::SE
        } else if roll == 6 {
            AiGoal::SW
        } else {
            AiGoal::NW
        };
        proof {
            assert(ai == goal_of_roll(roll as int));
        }
        AntAI { ai, duration: AI_DURATION }
    }
}

/// The weight table of the weighted random walk, by goal, over the eight
/// candidate steps in the order N, E, S, W, NE, SE, SW, NW.
pub open spec fn spec_move_weights(g: AiGoal) -> Seq<int> {
    match g {
        AiGoal::North => seq![16, 4, 1, 4, 8, 1, 1, 8],
        AiGoal::East => seq![4, 16, 4, 1, 8, 8, 1, 1],
        AiGoal::South => seq![1, 4, 16, 4, 1, 8, 8, 1],
        AiGoal::West => seq![4, 1, 4, 16, 1, 1, 8, 8],
        AiGoal::NE => seq![4, 4, 1, 1, 16, 1, 1, 1],
        AiGoal::SE => seq![1, 4, 4, 1, 1, 16, 1, 1],
        AiGoal::SW => seq![1, 1, 4, 4, 1, 1, 16, 1],
        AiGoal::NW => seq![4, 1, 1, 4, 1, 1, 1, 16],
        _ => seq![1, 1, 1, 1, 1, 1, 1, 1],
    }
}

/// The weight table of the active goal.  Holding and uninitialized goals
/// never reach the weighted walk; exhaustive matching on the remaining
/// variants keeps the unsupported-goal state unreachable.
pub fn generate_move_weights(g: AiGoal) -> (w: Vec<i64>)
    requires
        !(g is Wait),
        !(g is Unset),
    ensures
        w@.len() == 8,
        forall|i: int| 0 <= i < 8 ==> w@[i] as int == spec_move_weights(g)[i],
        forall|i: int| 0 <= i < 8 ==> 1 <= #[trigger] w@[i] <= 16,
{
    let w: Vec<i64> = match g {
        AiGoal::North => vec![16, 4, 1, 4, 8, 1, 1, 8],
        AiGoal::East => vec![4, 16, 4, 1, 8, 8, 1, 1],
        AiGoal::South => vec![1, 4, 16, 4, 1, 8, 8, 1],
        AiGoal::West => vec![4, 1, 4, 16, 1, 1, 8, 8],
        AiGoal::NE => vec![4, 4, 1, 1, 16, 1, 1, 1],
        AiGoal::SE => vec![1, 4, 4, 1, 1, 16, 1, 1],
        AiGoal::SW => vec![1, 1, 4, 4, 1, 1, 16, 1],
        AiGoal::NW => vec![4, 1, 1, 4, 1, 1, 1, 16],
        AiGoal::Random | AiGoal::Destination { .. } => vec![1, 1, 1, 1, 1, 1, 1, 1],
        AiGoal::Wait | AiGoal::Unset => vec![1, 1, 1, 1, 1, 1, 1, 1],
    };
    w
}

/// The foraging state: idle, seeking a destination, or eating a resource.
/// One variant at a time, so an agent is never seeking and eating at once.
#[derive(Clone, Copy, PartialEq, Eq, Structural, Debug)]
pub enum ForageState {
    Idle,
    Seeking,
    Eating { food_ent: u64 },
}

/// A simulated ant.
#[derive(Clone, Copy, Debug)]
pub struct Ant {
    pub ent: u64,
    pub position: Position,
    pub size: Size,
    pub health: Health,
    pub hunger: Hunger,
    pub visibility: VisibleRange,
    pub ai: AntAI,
    pub forage: ForageState,
    pub queen: bool,
}

/// The ordinary ant as spawned: healthy, well fed, uninitialized AI.
pub open spec fn spec_new_ant(ent: u64, x: i64, y: i64) -> Ant {
    Ant {
        ent,
        position: Position { x, y },
        size: Size { width: 600, height: 600 },
        health: Health { pct: 1000 },
        hunger: Hunger { pct: 1000 },
        visibility: VisibleRange { size: Size { width: 5000, height: 5000 } },
        ai: AntAI { ai: AiGoal::Unset, duration: 0 },
        forage: ForageState::Idle,
        queen: false,
    }
}

/// The queen as spawned: larger and slower, otherwise ordinary.
pub open spec fn spec_queen_ant(ent: u64, x: i64, y: i64) -> Ant {
    Ant { size: Size { width: 2000, height: 2000 }, queen: true, ..spec_new_ant(ent, x, y) }
}

impl Ant {
    /// A healthy, well-fed, ordinary ant at the given spot.
    pub fn new(ent: u64, x: i64, y: i64) -> (a: Ant)
        ensures
            a == spec_new_ant(ent, x, y),
    {
        Ant {
            ent,
            position: Position { x, y },
            size: Size::square(600),
            health: Health::full(),
            hunger: Hunger::full(),
            visibility: VisibleRange::new(5000),
            ai: AntAI::default(),
            forage: ForageState::Idle,
            queen: false,
        }
    }

    /// The queen: larger and slower, otherwise an ordinary ant.
    pub fn queen(ent: u64, x: i64, y: i64) -> (a: Ant)
        ensures
            a == spec_queen_ant(ent, x, y),
    {
        Ant {
            ent,
            position: Position { x, y },
            size: Size::square(2000),
            health: Health::full(),
            hunger: Hunger::full(),
            visibility: VisibleRange::new(5000),
            ai: AntAI::default(),
            forage: ForageState::Idle,
            queen: true,
        }
    }

    /// Well-formed within an arena of the given extent.
    pub open spec fn wf(self, width: int, height: int) -> bool {
        &&& self.position.wf()
        &&& spec_in_bounds(self.position, width, height)
        &&& self.size.wf()
        &&& self.visibility.size.wf()
        &&& 0 <= self.hunger.pct <= 1000
        &&& HEALTH_MIN <= self.health.pct <= 1000
        &&& -1_000_000_000 <= self.ai.duration <= 1_000_000_000
        &&& (self.ai.ai matches AiGoal::Destination { dest } ==> dest.wf() && spec_in_bounds(
            dest,
            width,
            height,
        ))
        &&& (self.forage is Seeking ==> self.ai.ai is Destination)
    }
}

/// The agent carries a freshly rolled goal, everything else kept.
pub open spec fn fresh_roll(a: Ant, a2: Ant) -> bool {
    exists|k: int|
        0 <= k < 8 && a2 == (Ant { ai: AntAI { ai: goal_of_roll(k), duration: AI_DURATION }, ..a })
}

/// What the countdown does to an agent in a weighted-walk goal: while
/// positive it loses the elapsed time; once spent, the goal re-rolls.
pub open spec fn duration_step_ok(m: Ant, a2: Ant, dt: int) -> bool {
    let d2 = if m.ai.duration > 0 {
        m.ai.duration - dt
    } else {
        m.ai.duration as int
    };
    if d2 <= 0 {
        fresh_roll(m, a2)
    } else {
        a2 == (Ant { ai: AntAI { ai: m.ai.ai, duration: d2 as i64 }, ..m })
    }
}

/// Every outcome AI initialization allows for one agent.  Holding and
/// destination goals are sticky; an uninitialized agent rolls a fresh
/// goal first; then the countdown runs.
pub open spec fn begin_ai_ok(a: Ant, a2: Ant, dt: int) -> bool {
    match a.ai.ai {
        AiGoal::Wait | AiGoal::Destination { .. } => a2 == a,
        AiGoal::Unset => exists|k: int|
            0 <= k < 8 && duration_step_ok(
                Ant { ai: AntAI { ai: goal_of_roll(k), duration: AI_DURATION }, ..a },
                a2,
                dt,
            ),
        _ => duration_step_ok(a, a2, dt),
    }
}

/// The agent with its foraging state and goal cleared, everything else
/// kept: the reset applied whenever a target resource is gone.
pub open spec fn ant_reset(a: Ant) -> Ant {
    Ant { forage: ForageState::Idle, ai: AntAI { ai: AiGoal::Unset, duration: 0 }, ..a }
}

} // verus!
