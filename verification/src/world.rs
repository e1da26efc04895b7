//! The simulation world: agents, food resources, the colony's shared
//! food registry, the obstacle set, and the entity counter.

use vstd::prelude::*;
use crate::ant::{Ant, AntAI, AiGoal, begin_ai_ok, spec_new_ant, spec_queen_ant};
use crate::arena::{ARENA_HEIGHT, ARENA_WIDTH, COORD_LIMIT, Collides, Position, Size};
use crate::food::{Food, FoodCreateEvent, QUANTITY_LIMIT};
use crate::rng::rand_below;

verus! {

/// Largest elapsed time one tick accepts, in thousandths of a time unit.
pub const DT_LIMIT: i64 = 1_000_000;

/// The colony-wide registry of known food identities.
pub struct KnownFood {
    pub locs: Vec<u64>,
}

/// A death signal for one agent, emitted while its health is below zero.
#[derive(Clone, Copy, PartialEq, Eq, Structural, Debug)]
pub struct AntDeathEvent {
    pub ent: u64,
}

/// The whole simulation state.
pub struct World {
    pub width: i64,
    pub height: i64,
    pub ants: Vec<Ant>,
    pub foods: Vec<Food>,
    pub known_food: KnownFood,
    pub walls: Vec<Collides>,
    pub next_ent: u64,
}

impl World {
    /// Well-formedness between phases: everything the eat pass keeps,
    /// plus every stored resource still holding a positive quantity.
    pub open spec fn wf(self) -> bool {
        &&& self.wf_except_quantity()
        &&& forall|i: int| 0 <= i < self.foods@.len() ==> (#[trigger] self.foods@[i]).quantity > 0
    }

    /// Well-formedness apart from quantity positivity: bounded arena,
    /// every body well formed and in bounds, entity identities unique and
    /// below the counter, and no registry entry listed twice.
    pub open spec fn wf_except_quantity(self) -> bool {
        &&& 0 < self.width <= COORD_LIMIT
        &&& 0 < self.height <= COORD_LIMIT
        &&& forall|i: int|
            0 <= i < self.ants@.len() ==> (#[trigger] self.ants@[i]).wf(
                self.width as int,
                self.height as int,
            )
        &&& forall|i: int|
            0 <= i < self.foods@.len() ==> (#[trigger] self.foods@[i]).wf(
                self.width as int,
                self.height as int,
            )
        &&& forall|i: int| 0 <= i < self.walls@.len() ==> (#[trigger] self.walls@[i]).wf()
        &&& forall|i: int|
            0 <= i < self.ants@.len() ==> (#[trigger] self.ants@[i]).ent < self.next_ent
        &&& forall|i: int|
            0 <= i < self.foods@.len() ==> (#[trigger] self.foods@[i]).ent < self.next_ent
        &&& forall|i: int, j: int|
            0 <= i < j < self.ants@.len() ==> self.ants@[i].ent != self.ants@[j].ent
        &&& forall|i: int, j: int|
            0 <= i < j < self.foods@.len() ==> self.foods@[i].ent != self.foods@[j].ent
        &&& forall|i: int, j: int|
            0 <= i < self.ants@.len() && 0 <= j < self.foods@.len() ==> self.ants@[i].ent
                != self.foods@[j].ent
        &&& forall|i: int, j: int|
            0 <= i < j < self.known_food.locs@.len() ==> self.known_food.locs@[i]
                != self.known_food.locs@[j]
    }

    /// Arena extent and obstacle set of the two worlds agree.
    pub open spec fn same_frame(self, other: World) -> bool {
        &&& self.width == other.width
        &&& self.height == other.height
        &&& self.walls@ == other.walls@
    }

    /// An empty world over the standard arena.
    pub fn new() -> (w: World)
        ensures
            w.wf(),
            w.width == ARENA_WIDTH,
            w.height == ARENA_HEIGHT,
            w.ants@.len() == 0,
            w.foods@.len() == 0,
            w.known_food.locs@.len() == 0,
            w.walls@.len() == 0,
            w.next_ent == 0,
    {
        World {
            width: ARENA_WIDTH,
            height: ARENA_HEIGHT,
            ants: Vec::new(),
            foods: Vec::new(),
            known_food: KnownFood { locs: Vec::new() },
            walls: Vec::new(),
            next_ent: 0,
        }
    }

    /// Add one boundary tile to the obstacle set.
    pub fn spawn_tile(&mut self, x: i64, y: i64)
        requires
            old(self).wf(),
            -COORD_LIMIT <= x <= COORD_LIMIT,
            -COORD_LIMIT <= y <= COORD_LIMIT,
        ensures
            final(self).wf(),
            final(self).walls@ == old(self).walls@.push(
                Collides { position: Position { x, y }, size: Size { width: 950, height: 950 } },
            ),
            final(self).width == old(self).width,
            final(self).height == old(self).height,
            final(self).ants@ == old(self).ants@,
            final(self).foods@ == old(self).foods@,
            final(self).known_food.locs@ == old(self).known_food.locs@,
            final(self).next_ent == old(self).next_ent,
    {
        self.walls.push(
            Collides { position: Position { x, y }, size: Size::square(950) },
        );
    }

    /// Ring the standard arena with wall tiles: the top and bottom rows
    /// and the left and right columns, one tile every tile side.
    pub fn startup_spawn_tiles(&mut self)
        requires
            old(self).wf(),
            old(self).width == ARENA_WIDTH,
            old(self).height == ARENA_HEIGHT,
        ensures
            final(self).wf(),
            final(self).walls@.len() == old(self).walls@.len() + 600,
            forall|i: int|
                0 <= i < old(self).walls@.len() ==> final(self).walls@[i] == old(self).walls@[i],
            forall|i: int|
                old(self).walls@.len() <= i < final(self).walls@.len() ==> (
                #[trigger] final(self).walls@[i]).size == (Size { width: 950, height: 950 })
                    && on_arena_border(final(self).walls@[i].position),
            final(self).width == old(self).width,
            final(self).height == old(self).height,
            final(self).ants@ == old(self).ants@,
            final(self).foods@ == old(self).foods@,
            final(self).known_food.locs@ == old(self).known_food.locs@,
            final(self).next_ent == old(self).next_ent,
    {
        let ghost orig = *self;
        let mut col: i64 = 0;
        while col < 200
            invariant
                0 <= col <= 200,
                self.wf(),
                self.width == orig.width,
                self.height == orig.height,
                self.ants@ == orig.ants@,
                self.foods@ == orig.foods@,
                self.known_food.locs@ == orig.known_food.locs@,
                self.next_ent == orig.next_ent,
                self.walls@.len() == orig.walls@.len() + 2 * col,
                forall|i: int| 0 <= i < orig.walls@.len() ==> self.walls@[i] == orig.walls@[i],
                forall|i: int|
                    orig.walls@.len() <= i < self.walls@.len() ==> (#[trigger] self.walls@[i]).size
                        == (Size { width: 950, height: 950 }) && on_arena_border(
                        self.walls@[i].position,
                    ),
            decreases 200 - col,
        {
            self.spawn_tile(8_000 * col, 0);
            self.spawn_tile(8_000 * col, 792_000);
            col += 1;
        }
        let mut row: i64 = 0;
        while row < 100
            invariant
                0 <= row <= 100,
                self.wf(),
                self.width == orig.width,
                self.height == orig.height,
                self.ants@ == orig.ants@,
                self.foods@ == orig.foods@,
                self.known_food.locs@ == orig.known_food.locs@,
                self.next_ent == orig.next_ent,
                self.walls@.len() == orig.walls@.len() + 400 + 2 * row,
                forall|i: int| 0 <= i < orig.walls@.len() ==> self.walls@[i] == orig.walls@[i],
                forall|i: int|
                    orig.walls@.len() <= i < self.walls@.len() ==> (#[trigger] self.walls@[i]).size
                        == (Size { width: 950, height: 950 }) && on_arena_border(
                        self.walls@[i].position,
                    ),
            decreases 100 - row,
        {
            self.spawn_tile(0, 8_000 * row);
            self.spawn_tile(1_592_000, 8_000 * row);
            row += 1;
        }
    }

    /// Fill the colony to thirty ordinary ants at the hatchery spot, then
    /// add the queen.
    pub fn spawn_ant(&mut self)
        requires
            old(self).wf(),
            old(self).next_ent <= u64::MAX - 31,
            old(self).width > 200_000,
            old(self).height > 200_000,
        ensures
            final(self).wf(),
            final(self).same_frame(*old(self)),
            final(self).foods@ == old(self).foods@,
            final(self).known_food.locs@ == old(self).known_food.locs@,
            final(self).ants@ == old(self).ants@ + Seq::new(
                spawn_count(old(self).ants@.len() as int) as nat,
                |i: int| spec_new_ant((old(self).next_ent as int + i) as u64, 200_000, 200_000),
            ).push(
                spec_queen_ant(
                    (old(self).next_ent as int + spawn_count(old(self).ants@.len() as int)) as u64,
                    200_000,
                    200_000,
                ),
            ),
            final(self).next_ent == old(self).next_ent + spawn_count(
                old(self).ants@.len() as int,
            ) + 1,
    {
        let ghost orig = *self;
        let start_len: usize = self.ants.len();
        while self.ants.len() < 30
            invariant
                self.wf(),
                self.width == orig.width,
                self.height == orig.height,
                self.walls@ == orig.walls@,
                self.foods@ == orig.foods@,
                self.known_food.locs@ == orig.known_food.locs@,
                start_len == orig.ants@.len(),
                self.width > 200_000,
                self.height > 200_000,
                orig.ants@.len() <= self.ants@.len() <= vstd::math::max(orig.ants@.len() as int, 30),
                orig.next_ent <= u64::MAX - 31,
                self.next_ent == orig.next_ent + self.ants@.len() - orig.ants@.len(),
                self.ants@ == orig.ants@ + Seq::new(
                    (self.ants@.len() - orig.ants@.len()) as nat,
                    |i: int| spec_new_ant((orig.next_ent as int + i) as u64, 200_000, 200_000),
                ),
            decreases 30 - self.ants@.len(),
        {
            let a = Ant::new(self.next_ent, 200_000, 200_000);
            self.ants.push(a);
            self.next_ent += 1;
            proof {
                assert(self.ants@ =~= orig.ants@ + Seq::new(
                    (self.ants@.len() - orig.ants@.len()) as nat,
                    |i: int| spec_new_ant((orig.next_ent as int + i) as u64, 200_000, 200_000),
                ));
            }
        }
        let q = Ant::queen(self.next_ent, 200_000, 200_000);
        self.ants.push(q);
        self.next_ent += 1;
        proof {
            assert(spawn_count(orig.ants@.len() as int) == self.ants@.len() - 1
                - orig.ants@.len());
            assert(self.ants@ =~= orig.ants@ + Seq::new(
                spawn_count(orig.ants@.len() as int) as nat,
                |i: int| spec_new_ant((orig.next_ent as int + i) as u64, 200_000, 200_000),
            ).push(
                spec_queen_ant(
                    (orig.next_ent as int + spawn_count(orig.ants@.len() as int)) as u64,
                    200_000,
                    200_000,
                ),
            ));
        }
    }

    /// Create one food resource where the event asks for it.
    pub fn food_create_handler(&mut self, event: &FoodCreateEvent)
        requires
            old(self).wf(),
            0 < event.x < old(self).width,
            0 < event.y < old(self).height,
            0 < event.quantity <= QUANTITY_LIMIT,
            old(self).next_ent < u64::MAX,
        ensures
            final(self).wf(),
            final(self).same_frame(*old(self)),
            final(self).ants@ == old(self).ants@,
            final(self).known_food.locs@ == old(self).known_food.locs@,
            final(self).foods@ == old(self).foods@.push(
                Food {
                    ent: old(self).next_ent,
                    position: Position { x: event.x, y: event.y },
                    size: Size { width: 300, height: 300 },
                    quantity: event.quantity,
                },
            ),
            final(self).next_ent == old(self).next_ent + 1,
    {
        let f = Food {
            ent: self.next_ent,
            position: Position { x: event.x, y: event.y },
            size: Size::square(300),
            quantity: event.quantity,
        };
        self.foods.push(f);
        self.next_ent += 1;
    }

    /// Fill the store to forty food resources of three units each, at
    /// uniformly random spots two tiles clear of the arena border.
    pub fn food_spawner(&mut self)
        requires
            old(self).wf(),
            old(self).width == ARENA_WIDTH,
            old(self).height == ARENA_HEIGHT,
            old(self).next_ent <= u64::MAX - 40,
        ensures
            final(self).wf(),
            final(self).same_frame(*old(self)),
            final(self).ants@ == old(self).ants@,
            final(self).known_food.locs@ == old(self).known_food.locs@,
            final(self).foods@.len() == vstd::math::max(old(self).foods@.len() as int, 40),
            forall|i: int|
                0 <= i < old(self).foods@.len() ==> final(self).foods@[i] == old(self).foods@[i],
            forall|i: int|
                old(self).foods@.len() <= i < final(self).foods@.len() ==> {
                    let f = #[trigger] final(self).foods@[i];
                    &&& f.quantity == 3000
                    &&& f.size == (Size { width: 300, height: 300 })
                    &&& 16_000 <= f.position.x < 1_584_000
                    &&& 16_000 <= f.position.y < 784_000
                    &&& f.ent as int == old(self).next_ent as int + i - old(self).foods@.len()
                },
            final(self).next_ent as int == old(self).next_ent as int + final(self).foods@.len()
                - old(self).foods@.len(),
    {
        let ghost orig = *self;
        while self.foods.len() < 40
            invariant
                self.wf(),
                self.width == orig.width,
                self.height == orig.height,
                self.width == ARENA_WIDTH,
                self.height == ARENA_HEIGHT,
                self.walls@ == orig.walls@,
                self.ants@ == orig.ants@,
                self.known_food.locs@ == orig.known_food.locs@,
                orig.foods@.len() <= self.foods@.len() <= vstd::math::max(
                    orig.foods@.len() as int,
                    40,
                ),
                orig.next_ent <= u64::MAX - 40,
                self.next_ent == orig.next_ent + self.foods@.len() - orig.foods@.len(),
                forall|i: int| 0 <= i < orig.foods@.len() ==> self.foods@[i] == orig.foods@[i],
                forall|i: int|
                    orig.foods@.len() <= i < self.foods@.len() ==> {
                        let f = #[trigger] self.foods@[i];
                        &&& f.quantity == 3000
                        &&& f.size == (Size { width: 300, height: 300 })
                        &&& 16_000 <= f.position.x < 1_584_000
                        &&& 16_000 <= f.position.y < 784_000
                        &&& f.ent as int == orig.next_ent as int + i - orig.foods@.len()
                    },
            decreases 40 - self.foods@.len(),
        {
            let x = rand_below(1_568_000) as i64 + 16_000;
            let y = rand_below(768_000) as i64 + 16_000;
            let f = Food {
                ent: self.next_ent,
                position: Position { x, y },
                size: Size::square(300),
                quantity: 3000,
            };
            self.foods.push(f);
            self.next_ent += 1;
        }
    }
}

/// What AI initialization does, start state to end state.
pub open spec fn begin_ai_rel(w0: World, w1: World, dt: int) -> bool {
    &&& w1.same_frame(w0)
    &&& w1.foods@ == w0.foods@
    &&& w1.known_food.locs@ == w0.known_food.locs@
    &&& w1.next_ent == w0.next_ent
    &&& w1.ants@.len() == w0.ants@.len()
    &&& forall|i: int| 0 <= i < w0.ants@.len() ==> begin_ai_ok(w0.ants@[i], w1.ants@[i], dt)
}

/// One tick relates start to end through the ten phase steps in their
/// strict order: Decide (prune, discover, assign), Move (movement,
/// eating), Act (arrivals, AI), Ambient (starvation with its death
/// signals, hunger), Cleanup (death recycling).
pub open spec fn tick_rel(w0: World, wz: World, deaths: Seq<AntDeathEvent>, dt: int) -> bool {
    exists|
        w1: World,
        w2: World,
        w3: World,
        w4: World,
        w5: World,
        w6: World,
        w7: World,
        w8: World,
        w9: World,
    |
        #![trigger crate::decide::clean_food_rel(w0, w1), crate::decide::locate_food_rel(w1, w2),
            crate::decide::add_food_goal_rel(w2, w3), crate::movement::ant_movement_rel(
                w3,
                w4,
                dt,
            ), crate::forage::eat_food_rel(w4, w5, dt), crate::forage::start_eat_food_rel(w5, w6),
            begin_ai_rel(w6, w7, dt), crate::vitals::health_degrade_rel(w7, w8, deaths, dt),
            crate::vitals::hunger_degrade_rel(w8, w9, dt)]
        {
            &&& crate::decide::clean_food_rel(w0, w1)
            &&& crate::decide::locate_food_rel(w1, w2)
            &&& crate::decide::add_food_goal_rel(w2, w3)
            &&& crate::movement::ant_movement_rel(w3, w4, dt)
            &&& crate::forage::eat_food_rel(w4, w5, dt)
            &&& crate::forage::start_eat_food_rel(w5, w6)
            &&& begin_ai_rel(w6, w7, dt)
            &&& crate::vitals::health_degrade_rel(w7, w8, deaths, dt)
            &&& crate::vitals::hunger_degrade_rel(w8, w9, dt)
            &&& crate::vitals::ant_death_handler_rel(w9, wz, deaths)
        }
}

impl World {
    /// Act phase: uninitialized agents roll a fresh goal; weighted-walk
    /// goals run their countdown down and re-roll once it is spent;
    /// holding and destination goals are sticky.
    pub fn ant_begin_ai(&mut self, dt: i64)
        requires
            old(self).wf(),
            0 <= dt <= DT_LIMIT,
        ensures
            final(self).wf(),
            begin_ai_rel(*old(self), *final(self), dt as int),
    {
        let ghost orig = *self;
        let mut i: usize = 0;
        while i < self.ants.len()
            invariant
                orig.wf(),
                self.wf(),
                0 <= dt <= DT_LIMIT,
                self.width == orig.width,
                self.height == orig.height,
                self.walls@ == orig.walls@,
                self.foods@ == orig.foods@,
                self.known_food.locs@ == orig.known_food.locs@,
                self.next_ent == orig.next_ent,
                i <= self.ants@.len(),
                self.ants@.len() == orig.ants@.len(),
                forall|k: int|
                    0 <= k < i ==> begin_ai_ok(orig.ants@[k], self.ants@[k], dt as int),
                forall|k: int| i <= k < self.ants@.len() ==> self.ants@[k] == orig.ants@[k],
            decreases self.ants@.len() - i,
        {
            let a = self.ants[i];
            let sticky = match a.ai.ai {
                AiGoal::Wait | AiGoal::Destination { .. } => true,
                _ => false,
            };
            if !sticky {
                let mut cur = a;
                let unset = match a.ai.ai {
                    AiGoal::Unset => true,
                    _ => false,
                };
                if unset {
                    cur = Ant { ai: AntAI::random_move_ai(), ..a };
                }
                let mut dur = cur.ai.duration;
                if dur > 0 {
                    dur = dur - dt;
                }
                if dur <= 0 {
                    cur = Ant { ai: AntAI::random_move_ai(), ..cur };
                } else {
                    cur = Ant { ai: AntAI { ai: cur.ai.ai, duration: dur }, ..cur };
                }
                self.ants[i] = cur;
            }
            i += 1;
        }
    }

    /// One simulation tick: the phases Decide, Move, Act, Ambient and
    /// Cleanup run to completion in that order, all fed the same elapsed
    /// time.  Returns the death signals the tick emitted.
    pub fn tick(&mut self, dt: i64) -> (deaths: Vec<AntDeathEvent>)
        requires
            old(self).wf(),
            0 <= dt <= DT_LIMIT,
            old(self).next_ent as int + old(self).ants@.len() <= u64::MAX as int,
        ensures
            final(self).wf(),
            tick_rel(*old(self), *final(self), deaths@, dt as int),
            final(self).same_frame(*old(self)),
            final(self).ants@.len() <= old(self).ants@.len(),
            final(self).next_ent as int <= old(self).next_ent as int + old(self).ants@.len(),
    {
        let ghost w0 = *self;
        self.clean_food();
        let ghost g1 = *self;
        self.locate_food();
        let ghost g2 = *self;
        self.add_food_goal();
        let ghost g3 = *self;
        self.ant_movement(dt);
        let ghost g4 = *self;
        self.eat_food(dt);
        let ghost g5 = *self;
        proof {
            crate::forage::lemma_eat_phase_len(g4.ants@, g4.foods@, dt as int);
        }
        self.start_eat_food();
        let ghost g6 = *self;
        self.ant_begin_ai(dt);
        let ghost g7 = *self;
        let deaths = self.health_degrade(dt);
        let ghost g8 = *self;
        proof {
            crate::vitals::lemma_death_events_len(self.ants@);
        }
        self.hunger_degrade(dt);
        let ghost g9 = *self;
        self.ant_death_handler(&deaths);
        proof {
            crate::vitals::lemma_apply_deaths_len(
                g9.ants@,
                g9.foods@,
                g9.next_ent as int,
                deaths@,
            );
            assert(crate::decide::clean_food_rel(w0, g1));
            assert(crate::decide::locate_food_rel(g1, g2));
            assert(crate::decide::add_food_goal_rel(g2, g3));
            assert(crate::movement::ant_movement_rel(g3, g4, dt as int));
            assert(crate::forage::eat_food_rel(g4, g5, dt as int));
            assert(crate::forage::start_eat_food_rel(g5, g6));
            assert(begin_ai_rel(g6, g7, dt as int));
            assert(crate::vitals::health_degrade_rel(g7, g8, deaths@, dt as int));
            assert(crate::vitals::hunger_degrade_rel(g8, g9, dt as int));
            assert(crate::vitals::ant_death_handler_rel(g9, *self, deaths@));
        }
        deaths
    }
}

/// Vitals stay in range: every agent of a well-formed world has hunger
/// between empty and full, and health never above full.
pub proof fn lemma_vitals_bounded(w: World, i: int)
    requires
        w.wf(),
        0 <= i < w.ants@.len(),
    ensures
        0 <= w.ants@[i].hunger.pct <= 1000,
        w.ants@[i].health.pct <= 1000,
{
}

/// Movement bound: every agent of a well-formed world stands strictly
/// inside the arena, never on or beyond its edge.
pub proof fn lemma_agent_in_bounds(w: World, i: int)
    requires
        w.wf(),
        0 <= i < w.ants@.len(),
    ensures
        crate::arena::spec_in_bounds(w.ants@[i].position, w.width as int, w.height as int),
{
}

/// How many ordinary ants the spawner adds to a colony of this size.
pub open spec fn spawn_count(len: int) -> int {
    if len < 30 {
        30 - len
    } else {
        0
    }
}

/// On the outermost tile ring of the standard arena.
pub open spec fn on_arena_border(p: Position) -> bool {
    ||| (p.y == 0 || p.y == 792_000) && 0 <= p.x <= 1_592_000
    ||| (p.x == 0 || p.x == 1_592_000) && 0 <= p.y <= 792_000
}

} // verus!
