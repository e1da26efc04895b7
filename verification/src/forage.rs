//! The foraging protocol: arrived seekers start eating (Act phase), and
//! eating agents trade hunger for food quantity (Move phase).

use vstd::prelude::*;
use crate::ant::{Ant, AntAI, AiGoal, EAT_RATE, ForageState, Hunger, ant_reset};
use crate::arena::{Position, Size, dist_between, spec_dist_between};
use crate::decide::spec_half_tile;
use crate::food::{Food, food_index, spec_food_exists, spec_food_index};
use crate::world::{DT_LIMIT, World};

verus! {

/// Arrival threshold: a seeker within this clearance of its target has
/// reached it, by strict comparison.
pub const ARRIVAL_THRESHOLD: i64 = 600;

/// The first live known resource sitting exactly at this position, in
/// registry order.
pub open spec fn first_available_at(locs: Seq<u64>, foods: Seq<Food>, dest: Position) -> Option<
    Food,
>
    decreases locs.len(),
{
    if locs.len() == 0 {
        Option::None
    } else {
        match first_available_at(locs.drop_last(), foods, dest) {
            Option::Some(f) => Option::Some(f),
            Option::None => {
                let e = locs.last();
                if spec_food_exists(foods, e) && foods[spec_food_index(foods, e)].position
                    == dest {
                    Option::Some(foods[spec_food_index(foods, e)])
                } else {
                    Option::None
                }
            },
        }
    }
}

/// What the arrival check does to one agent.  A seeker whose destination
/// matches a live known resource starts eating it once strictly within
/// the arrival threshold; a seeker whose resource is gone resets to idle
/// with a fresh-to-roll goal; everyone else is left alone.
pub open spec fn start_eat_step(a: Ant, locs: Seq<u64>, foods: Seq<Food>) -> Ant {
    match a.ai.ai {
        AiGoal::Destination { dest } => {
            if a.forage is Seeking {
                match first_available_at(locs, foods, dest) {
                    Option::Some(f) => {
                        if spec_dist_between(a.position, a.size, f.position, spec_half_tile())
                            < ARRIVAL_THRESHOLD {
                            Ant {
                                forage: ForageState::Eating { food_ent: f.ent },
                                ai: AntAI { ai: AiGoal::Wait, duration: a.ai.duration },
                                ..a
                            }
                        } else {
                            a
                        }
                    },
                    Option::None => ant_reset(a),
                }
            } else {
                a
            }
        },
        _ => a,
    }
}

/// What one tick of eating does to one agent and the store.  The
/// resource gone: reset.  The resource already drained by an earlier
/// eater this tick: reset.  Otherwise hunger rises and the quantity
/// falls by the same amount; draining the resource or filling up ends
/// the meal within the same tick.
pub open spec fn eat_one(a: Ant, foods: Seq<Food>, dt: int) -> (Ant, Seq<Food>) {
    match a.forage {
        ForageState::Eating { food_ent } => {
            if !spec_food_exists(foods, food_ent) {
                (ant_reset(a), foods)
            } else {
                let i = spec_food_index(foods, food_ent);
                let q = foods[i].quantity;
                if q <= 0 {
                    (ant_reset(a), foods)
                } else if a.hunger.pct < 1000 {
                    let delta = dt * (EAT_RATE as int) / 1000;
                    let h2 = a.hunger.pct + delta;
                    let q2 = q - delta;
                    let foods2 = foods.update(i, Food { quantity: q2 as i64, ..foods[i] });
                    if q2 <= 0 || h2 >= 1000 {
                        (
                            Ant {
                                hunger: Hunger { pct: (if h2 > 1000 { 1000int } else { h2 }) as i64 },
                                forage: ForageState::Idle,
                                ai: AntAI { ai: AiGoal::Unset, duration: 0 },
                                ..a
                            },
                            foods2,
                        )
                    } else {
                        (Ant { hunger: Hunger { pct: h2 as i64 }, ..a }, foods2)
                    }
                } else {
                    (ant_reset(a), foods)
                }
            }
        },
        _ => (a, foods),
    }
}

/// One eat pass over the colony in order, threading the store through.
pub open spec fn eat_phase(ants: Seq<Ant>, foods: Seq<Food>, dt: int) -> (Seq<Ant>, Seq<Food>)
    decreases ants.len(),
{
    if ants.len() == 0 {
        (ants, foods)
    } else {
        let (a1, f1) = eat_phase(ants.drop_last(), foods, dt);
        let (a_last, f2) = eat_one(ants.last(), f1, dt);
        (a1.push(a_last), f2)
    }
}

pub proof fn lemma_eat_phase_len(ants: Seq<Ant>, foods: Seq<Food>, dt: int)
    ensures
        eat_phase(ants, foods, dt).0.len() == ants.len(),
    decreases ants.len(),
{
    if ants.len() > 0 {
        lemma_eat_phase_len(ants.drop_last(), foods, dt);
    }
}

/// The store with the drained resources dropped.
pub open spec fn live_foods(foods: Seq<Food>) -> Seq<Food>
    decreases foods.len(),
{
    if foods.len() == 0 {
        Seq::empty()
    } else {
        let rest = live_foods(foods.drop_last());
        if foods.last().quantity > 0 {
            rest.push(foods.last())
        } else {
            rest
        }
    }
}

pub proof fn lemma_live_foods_props(foods: Seq<Food>)
    ensures
        forall|k: int|
            0 <= k < live_foods(foods).len() ==> exists|i: int|
                0 <= i < foods.len() && foods[i] == #[trigger] live_foods(foods)[k],
        forall|k: int| 0 <= k < live_foods(foods).len() ==> (#[trigger] live_foods(foods)[k]).quantity > 0,
        (forall|i: int, j: int| 0 <= i < j < foods.len() ==> foods[i].ent != foods[j].ent)
            ==> (forall|i: int, j: int|
            0 <= i < j < live_foods(foods).len() ==> live_foods(foods)[i].ent != live_foods(
                foods,
            )[j].ent),
        forall|e: u64| spec_food_exists(live_foods(foods), e) ==> spec_food_exists(foods, e),
    decreases foods.len(),
{
    if foods.len() > 0 {
        let pre = foods.drop_last();
        lemma_live_foods_props(pre);
        let rest = live_foods(pre);
        let res = live_foods(foods);
        assert(forall|m: int| 0 <= m < pre.len() ==> pre[m] == foods[m]);
        assert forall|k: int|
            0 <= k < res.len() implies exists|i: int|
            0 <= i < foods.len() && foods[i] == #[trigger] res[k] by {
            if k < rest.len() {
                assert(res[k] == rest[k]);
                let i = choose|i: int| 0 <= i < pre.len() && pre[i] == rest[k];
                assert(foods[i] == res[k]);
            } else {
                assert(res[k] == foods[foods.len() - 1]);
            }
        }
        if forall|i: int, j: int| 0 <= i < j < foods.len() ==> foods[i].ent != foods[j].ent {
            if foods.last().quantity > 0 {
                assert forall|i: int, j: int| 0 <= i < j < res.len() implies res[i].ent
                    != res[j].ent by {
                    if j == res.len() - 1 {
                        assert(res[i] == rest[i]);
                        let m = choose|m: int| 0 <= m < pre.len() && pre[m] == rest[i];
                        assert(foods[m] == res[i]);
                        assert(foods[foods.len() - 1] == res[j]);
                    }
                }
            }
        }
        assert forall|e: u64| spec_food_exists(res, e) implies spec_food_exists(foods, e) by {
            let k = choose|k: int| 0 <= k < res.len() && res[k].ent == e;
            let i = choose|i: int| 0 <= i < foods.len() && foods[i] == res[k];
            assert(foods[i].ent == e);
        }
    }
}

/// What the arrival check does, start state to end state.
pub open spec fn start_eat_food_rel(w0: World, w1: World) -> bool {
    &&& w1.same_frame(w0)
    &&& w1.foods@ == w0.foods@
    &&& w1.known_food.locs@ == w0.known_food.locs@
    &&& w1.next_ent == w0.next_ent
    &&& w1.ants@.len() == w0.ants@.len()
    &&& forall|i: int|
        0 <= i < w0.ants@.len() ==> w1.ants@[i] == start_eat_step(
            w0.ants@[i],
            w0.known_food.locs@,
            w0.foods@,
        )
}

/// What the eat pass does, start state to end state.
pub open spec fn eat_food_rel(w0: World, w1: World, dt: int) -> bool {
    &&& w1.same_frame(w0)
    &&& w1.known_food.locs@ == w0.known_food.locs@
    &&& w1.next_ent == w0.next_ent
    &&& w1.ants@ == eat_phase(w0.ants@, w0.foods@, dt).0
    &&& w1.foods@ == live_foods(eat_phase(w0.ants@, w0.foods@, dt).1)
}

impl World {
    /// Act phase: every arrived seeker starts eating its target, and a
    /// seeker whose target vanished resets to idle.
    pub fn start_eat_food(&mut self)
        requires
            old(self).wf(),
        ensures
            final(self).wf(),
            start_eat_food_rel(*old(self), *final(self)),
    {
        let ghost orig = *self;
        let half = Size::square(500);
        let mut i: usize = 0;
        while i < self.ants.len()
            invariant
                orig.wf(),
                self.wf(),
                half == spec_half_tile(),
                self.width == orig.width,
                self.height == orig.height,
                self.walls@ == orig.walls@,
                self.foods@ == orig.foods@,
                self.known_food.locs@ == orig.known_food.locs@,
                self.next_ent == orig.next_ent,
                i <= self.ants@.len(),
                self.ants@.len() == orig.ants@.len(),
                forall|k: int|
                    0 <= k < i ==> self.ants@[k] == start_eat_step(
                        orig.ants@[k],
                        orig.known_food.locs@,
                        orig.foods@,
                    ),
                forall|k: int| i <= k < self.ants@.len() ==> self.ants@[k] == orig.ants@[k],
            decreases self.ants@.len() - i,
        {
            let a = self.ants[i];
            let seeking = match a.forage {
                ForageState::Seeking => true,
                _ => false,
            };
            if seeking {
                match a.ai.ai {
                    AiGoal::Destination { dest } => {
                        let mut found: Option<Food> = None;
                        let mut k: usize = 0;
                        while k < self.known_food.locs.len()
                            invariant
                                self.wf(),
                                k <= self.known_food.locs@.len(),
                                found is None ==> first_available_at(
                                    self.known_food.locs@.take(k as int),
                                    self.foods@,
                                    dest,
                                ) is None,
                                found matches Some(f) ==> first_available_at(
                                    self.known_food.locs@.take(k as int),
                                    self.foods@,
                                    dest,
                                ) == Some(f) && f.position.wf() && f.size.wf(),
                            decreases self.known_food.locs@.len() - k,
                        {
                            if found.is_none() {
                                let ent = self.known_food.locs[k];
                                match food_index(&self.foods, ent) {
                                    Some(j) => {
                                        let f = self.foods[j];
                                        if f.position == dest {
                                            found = Some(f);
                                        }
                                    },
                                    None => {},
                                }
                            }
                            proof {
                                let t2 = self.known_food.locs@.take(k + 1);
                                assert(t2.drop_last() =~= self.known_food.locs@.take(k as int));
                                assert(t2.last() == self.known_food.locs@[k as int]);
                            }
                            k += 1;
                        }
                        proof {
                            assert(self.known_food.locs@.take(self.known_food.locs@.len() as int)
                                =~= self.known_food.locs@);
                        }
                        match found {
                            Some(f) => {
                                let d = dist_between(&a.position, &a.size, &f.position, &half);
                                if d < ARRIVAL_THRESHOLD {
                                    self.ants[i] = Ant {
                                        forage: ForageState::Eating { food_ent: f.ent },
                                        ai: AntAI { ai: AiGoal::Wait, duration: a.ai.duration },
                                        ..a
                                    };
                                }
                            },
                            None => {
                                self.ants[i] = Ant {
                                    forage: ForageState::Idle,
                                    ai: AntAI { ai: AiGoal::Unset, duration: 0 },
                                    ..a
                                };
                            },
                        }
                    },
                    _ => {},
                }
            }
            i += 1;
        }
    }

    /// Move phase: every eating agent trades hunger for its resource's
    /// quantity, and drained resources leave the store at the end of the
    /// pass.
    pub fn eat_food(&mut self, dt: i64)
        requires
            old(self).wf(),
            0 <= dt <= DT_LIMIT,
        ensures
            final(self).wf(),
            eat_food_rel(*old(self), *final(self), dt as int),
    {
        let ghost orig = *self;
        let delta = crate::vitals::rate_amount(dt, EAT_RATE);
        let mut i: usize = 0;
        while i < self.ants.len()
            invariant
                orig.wf(),
                self.wf_except_quantity(),
                self.width == orig.width,
                self.height == orig.height,
                self.walls@ == orig.walls@,
                self.known_food.locs@ == orig.known_food.locs@,
                self.next_ent == orig.next_ent,
                i <= self.ants@.len(),
                self.ants@.len() == orig.ants@.len(),
                0 <= dt <= DT_LIMIT,
                delta == dt * (EAT_RATE as int) / 1000,
                0 <= delta <= 1_000_000,
                self.ants@.take(i as int) == eat_phase(
                    orig.ants@.take(i as int),
                    orig.foods@,
                    dt as int,
                ).0,
                self.foods@ == eat_phase(orig.ants@.take(i as int), orig.foods@, dt as int).1,
                forall|k: int| i <= k < self.ants@.len() ==> self.ants@[k] == orig.ants@[k],
            decreases self.ants@.len() - i,
        {
            let ghost pre_ants = self.ants@;
            let ghost pre_foods = self.foods@;
            let a = self.ants[i];
            match a.forage {
                ForageState::Eating { food_ent } => {
                    match food_index(&self.foods, food_ent) {
                        Some(j) => {
                            let f = self.foods[j];
                            if f.quantity <= 0 {
                                self.ants[i] = Ant {
                                    forage: ForageState::Idle,
                                    ai: AntAI { ai: AiGoal::Unset, duration: 0 },
                                    ..a
                                };
                            } else if a.hunger.pct < 1000 {
                                let h2 = a.hunger.pct + delta;
                                let q2 = f.quantity - delta;
                                self.foods[j] = Food { quantity: q2, ..f };
                                if q2 <= 0 || h2 >= 1000 {
                                    let clamped = if h2 > 1000 {
                                        1000
                                    } else {
                                        h2
                                    };
                                    self.ants[i] = Ant {
                                        hunger: Hunger { pct: clamped },
                                        forage: ForageState::Idle,
                                        ai: AntAI { ai: AiGoal::Unset, duration: 0 },
                                        ..a
                                    };
                                } else {
                                    self.ants[i] = Ant { hunger: Hunger { pct: h2 }, ..a };
                                }
                            } else {
                                self.ants[i] = Ant {
                                    forage: ForageState::Idle,
                                    ai: AntAI { ai: AiGoal::Unset, duration: 0 },
                                    ..a
                                };
                            }
                        },
                        None => {
                            self.ants[i] = Ant {
                                forage: ForageState::Idle,
                                ai: AntAI { ai: AiGoal::Unset, duration: 0 },
                                ..a
                            };
                        },
                    }
                },
                _ => {},
            }
            proof {
                let t2 = orig.ants@.take(i + 1);
                assert(t2.drop_last() =~= orig.ants@.take(i as int));
                assert(t2.last() == orig.ants@[i as int]);
                assert(self.ants@.take(i + 1) =~= pre_ants.take(i as int).push(
                    self.ants@[i as int],
                ));
            }
            i += 1;
        }
        proof {
            assert(orig.ants@.take(orig.ants@.len() as int) =~= orig.ants@);
            assert(self.ants@.take(self.ants@.len() as int) =~= self.ants@);
        }
        let mut kept: Vec<Food> = Vec::new();
        let mut j: usize = 0;
        let ghost fed = self.foods@;
        while j < self.foods.len()
            invariant
                j <= self.foods@.len(),
                self.foods@ == fed,
                kept@ == live_foods(self.foods@.take(j as int)),
            decreases self.foods@.len() - j,
        {
            let f = self.foods[j];
            if f.quantity > 0 {
                kept.push(f);
            }
            proof {
                let t2 = self.foods@.take(j + 1);
                assert(t2.drop_last() =~= self.foods@.take(j as int));
                assert(t2.last() == self.foods@[j as int]);
            }
            j += 1;
        }
        proof {
            assert(self.foods@.take(self.foods@.len() as int) =~= self.foods@);
            lemma_live_foods_props(self.foods@);
        }
        self.foods = kept;
    }
}

} // verus!
