//! The Ambient and Cleanup phases: hunger and health decay, death
//! signals, and the death-recycling rule.

use vstd::prelude::*;
use crate::ant::{Ant, HEALTH_DEGRADATION_RATE, HEALTH_MIN, HUNGER_DEGRADATION_RATE, Health, Hunger};
use crate::arena::Size;
use crate::food::{Food, FoodCreateEvent};
use crate::world::{AntDeathEvent, DT_LIMIT, World};

verus! {

/// Hunger below this counts as starving: health starts to drain.
pub const STARVATION_THRESHOLD: i64 = 10;

/// dt * rate / 1000: the amount a rate-per-time-unit accumulates over an
/// elapsed time, both in thousandths.
pub fn rate_amount(dt: i64, rate: i64) -> (r: i64)
    requires
        0 <= dt <= DT_LIMIT,
        0 <= rate <= 1000,
    ensures
        r == dt * rate / 1000,
        0 <= r <= 1_000_000,
{
    proof {
        assert(0 <= dt * rate <= 1_000_000_000) by (nonlinear_arith)
            requires
                0 <= dt <= 1_000_000,
                0 <= rate <= 1000,
        ;
    }
    (((dt as u64) * (rate as u64)) / 1000) as i64
}

/// What hunger decay does to one agent: hunger drains while not eating,
/// clamped at its floor of zero.
pub open spec fn hunger_step(a: Ant, dt: int) -> Ant {
    if a.forage is Eating {
        a
    } else {
        let h = a.hunger.pct - dt * (HUNGER_DEGRADATION_RATE as int) / 1000;
        Ant { hunger: Hunger { pct: (if h < 0 { 0int } else { h }) as i64 }, ..a }
    }
}

/// What starvation does to one agent: health drains while hunger sits at
/// its floor, saturating only at the representation floor far below the
/// death threshold.
pub open spec fn health_step(a: Ant, dt: int) -> Ant {
    if a.hunger.pct < STARVATION_THRESHOLD {
        let h = a.health.pct - dt * (HEALTH_DEGRADATION_RATE as int) / 1000;
        Ant {
            health: Health { pct: (if h < HEALTH_MIN { HEALTH_MIN as int } else { h }) as i64 },
            ..a
        }
    } else {
        a
    }
}

/// One death signal per agent whose health is below zero, in colony
/// order.
pub open spec fn death_events(ants: Seq<Ant>) -> Seq<AntDeathEvent>
    decreases ants.len(),
{
    if ants.len() == 0 {
        Seq::empty()
    } else {
        let rest = death_events(ants.drop_last());
        if ants.last().health.pct < 0 {
            rest.push(AntDeathEvent { ent: ants.last().ent })
        } else {
            rest
        }
    }
}

pub proof fn lemma_death_events_len(ants: Seq<Ant>)
    ensures
        death_events(ants).len() <= ants.len(),
    decreases ants.len(),
{
    if ants.len() > 0 {
        lemma_death_events_len(ants.drop_last());
    }
}

pub proof fn lemma_apply_deaths_len(
    ants: Seq<Ant>,
    foods: Seq<Food>,
    next: int,
    evs: Seq<AntDeathEvent>,
)
    ensures
        apply_deaths(ants, foods, next, evs).0.len() <= ants.len(),
        next <= apply_deaths(ants, foods, next, evs).2 <= next + evs.len(),
    decreases evs.len(),
{
    if evs.len() > 0 {
        lemma_apply_deaths_len(ants, foods, next, evs.drop_last());
        let (a1, f1, n1) = apply_deaths(ants, foods, next, evs.drop_last());
        let e = evs.last().ent;
        if spec_ant_exists(a1, e) {
            lemma_ant_index_props(a1, e);
            assert(apply_deaths(ants, foods, next, evs).0 == a1.remove(spec_ant_index(a1, e)));
        }
    }
}

/// Index of the first agent with this identity, or -1.
pub open spec fn spec_ant_index(ants: Seq<Ant>, ent: u64) -> int
    decreases ants.len(),
{
    if ants.len() == 0 {
        -1
    } else if ants[0].ent == ent {
        0
    } else {
        let r = spec_ant_index(ants.drop_first(), ent);
        if r < 0 {
            -1
        } else {
            r + 1
        }
    }
}

/// Whether the colony holds an agent with this identity.
pub open spec fn spec_ant_exists(ants: Seq<Ant>, ent: u64) -> bool {
    exists|i: int| 0 <= i < ants.len() && ants[i].ent == ent
}

pub proof fn lemma_ant_index_props(ants: Seq<Ant>, ent: u64)
    ensures
        spec_ant_index(ants, ent) >= 0 <==> spec_ant_exists(ants, ent),
        spec_ant_exists(ants, ent) ==> {
            let j = spec_ant_index(ants, ent);
            &&& 0 <= j < ants.len()
            &&& ants[j].ent == ent
        },
    decreases ants.len(),
{
    if ants.len() > 0 && ants[0].ent != ent {
        lemma_ant_index_props(ants.drop_first(), ent);
        let rest = ants.drop_first();
        assert(forall|i: int| 0 <= i < rest.len() ==> rest[i] == ants[i + 1]);
        if spec_ant_exists(ants, ent) {
            let w = choose|i: int| 0 <= i < ants.len() && ants[i].ent == ent;
            assert(w > 0);
            assert(rest[w - 1].ent == ent);
        }
        if spec_ant_exists(rest, ent) {
            let r = spec_ant_index(rest, ent);
            assert(ants[r + 1].ent == ent);
        }
    }
}

/// A first match after a clean prefix is the index the spec names.
pub proof fn lemma_ant_index_first(ants: Seq<Ant>, ent: u64, j: int)
    requires
        0 <= j < ants.len(),
        ants[j].ent == ent,
        forall|k: int| 0 <= k < j ==> ants[k].ent != ent,
    ensures
        spec_ant_index(ants, ent) == j,
    decreases j,
{
    if j > 0 {
        let rest = ants.drop_first();
        assert(forall|i: int| 0 <= i < rest.len() ==> rest[i] == ants[i + 1]);
        lemma_ant_index_first(rest, ent, j - 1);
    }
}

/// Find the first agent with this identity.
pub fn ant_index(ants: &Vec<Ant>, ent: u64) -> (r: Option<usize>)
    ensures
        match r {
            Some(j) => j as int == spec_ant_index(ants@, ent) && j < ants@.len()
                && ants@[j as int].ent == ent,
            None => !spec_ant_exists(ants@, ent),
        },
{
    proof {
        lemma_ant_index_props(ants@, ent);
    }
    let mut j: usize = 0;
    while j < ants.len()
        invariant
            j <= ants@.len(),
            forall|k: int| 0 <= k < j ==> ants@[k].ent != ent,
        decreases ants@.len() - j,
    {
        if ants[j].ent == ent {
            proof {
                lemma_ant_index_first(ants@, ent, j as int);
            }
            return Some(j);
        }
        j += 1;
    }
    None
}

/// The state after one death signal: if the agent still exists, a food
/// resource of one unit appears at its position and the agent is removed;
/// a signal for an agent already gone does nothing.
pub open spec fn apply_death(ants: Seq<Ant>, foods: Seq<Food>, next: int, ent: u64) -> (
    Seq<Ant>,
    Seq<Food>,
    int,
) {
    if spec_ant_exists(ants, ent) {
        let i = spec_ant_index(ants, ent);
        (
            ants.remove(i),
            foods.push(
                Food {
                    ent: next as u64,
                    position: ants[i].position,
                    size: Size { width: 300, height: 300 },
                    quantity: 1000,
                },
            ),
            next + 1,
        )
    } else {
        (ants, foods, next)
    }
}

/// The state after a batch of death signals, applied in order.
pub open spec fn apply_deaths(
    ants: Seq<Ant>,
    foods: Seq<Food>,
    next: int,
    evs: Seq<AntDeathEvent>,
) -> (Seq<Ant>, Seq<Food>, int)
    decreases evs.len(),
{
    if evs.len() == 0 {
        (ants, foods, next)
    } else {
        let (a1, f1, n1) = apply_deaths(ants, foods, next, evs.drop_last());
        apply_death(a1, f1, n1, evs.last().ent)
    }
}

/// What hunger decay does, start state to end state.
pub open spec fn hunger_degrade_rel(w0: World, w1: World, dt: int) -> bool {
    &&& w1.same_frame(w0)
    &&& w1.foods@ == w0.foods@
    &&& w1.known_food.locs@ == w0.known_food.locs@
    &&& w1.next_ent == w0.next_ent
    &&& w1.ants@.len() == w0.ants@.len()
    &&& forall|i: int| 0 <= i < w0.ants@.len() ==> w1.ants@[i] == hunger_step(w0.ants@[i], dt)
}

/// What starvation decay does, start state to end state, with the death
/// signals it emits.
pub open spec fn health_degrade_rel(
    w0: World,
    w1: World,
    deaths: Seq<AntDeathEvent>,
    dt: int,
) -> bool {
    &&& w1.same_frame(w0)
    &&& w1.foods@ == w0.foods@
    &&& w1.known_food.locs@ == w0.known_food.locs@
    &&& w1.next_ent == w0.next_ent
    &&& w1.ants@.len() == w0.ants@.len()
    &&& forall|i: int| 0 <= i < w0.ants@.len() ==> w1.ants@[i] == health_step(w0.ants@[i], dt)
    &&& deaths == death_events(w1.ants@)
}

/// What the death-recycling cleanup does, start state to end state.
pub open spec fn ant_death_handler_rel(w0: World, w1: World, deaths: Seq<AntDeathEvent>) -> bool {
    &&& w1.same_frame(w0)
    &&& w1.known_food.locs@ == w0.known_food.locs@
    &&& w1.ants@ == apply_deaths(w0.ants@, w0.foods@, w0.next_ent as int, deaths).0
    &&& w1.foods@ == apply_deaths(w0.ants@, w0.foods@, w0.next_ent as int, deaths).1
    &&& w1.next_ent as int == apply_deaths(w0.ants@, w0.foods@, w0.next_ent as int, deaths).2
}

impl World {
    /// Ambient phase: hunger drains at a fixed rate for every agent not
    /// eating, clamped at zero.
    pub fn hunger_degrade(&mut self, dt: i64)
        requires
            old(self).wf(),
            0 <= dt <= DT_LIMIT,
        ensures
            final(self).wf(),
            hunger_degrade_rel(*old(self), *final(self), dt as int),
    {
        let ghost orig = *self;
        let amount = rate_amount(dt, HUNGER_DEGRADATION_RATE);
        let mut i: usize = 0;
        while i < self.ants.len()
            invariant
                orig.wf(),
                self.wf(),
                self.width == orig.width,
                self.height == orig.height,
                self.walls@ == orig.walls@,
                self.foods@ == orig.foods@,
                self.known_food.locs@ == orig.known_food.locs@,
                self.next_ent == orig.next_ent,
                i <= self.ants@.len(),
                self.ants@.len() == orig.ants@.len(),
                amount == dt * (HUNGER_DEGRADATION_RATE as int) / 1000,
                0 <= amount <= 1_000_000,
                forall|k: int|
                    0 <= k < i ==> self.ants@[k] == hunger_step(orig.ants@[k], dt as int),
                forall|k: int| i <= k < self.ants@.len() ==> self.ants@[k] == orig.ants@[k],
            decreases self.ants@.len() - i,
        {
            let a = self.ants[i];
            let eating = match a.forage {
                crate::ant::ForageState::Eating { .. } => true,
                _ => false,
            };
            if !eating {
                let h = a.hunger.pct - amount;
                let clamped = if h < 0 {
                    0
                } else {
                    h
                };
                self.ants[i] = Ant { hunger: Hunger { pct: clamped }, ..a };
            }
            i += 1;
        }
    }

    /// Ambient phase: health drains while hunger sits at its floor, and a
    /// death signal goes out for every agent whose health is below zero.
    pub fn health_degrade(&mut self, dt: i64) -> (deaths: Vec<AntDeathEvent>)
        requires
            old(self).wf(),
            0 <= dt <= DT_LIMIT,
        ensures
            final(self).wf(),
            health_degrade_rel(*old(self), *final(self), deaths@, dt as int),
    {
        let ghost orig = *self;
        let amount = rate_amount(dt, HEALTH_DEGRADATION_RATE);
        let mut deaths: Vec<AntDeathEvent> = Vec::new();
        let mut i: usize = 0;
        while i < self.ants.len()
            invariant
                orig.wf(),
                self.wf(),
                self.width == orig.width,
                self.height == orig.height,
                self.walls@ == orig.walls@,
                self.foods@ == orig.foods@,
                self.known_food.locs@ == orig.known_food.locs@,
                self.next_ent == orig.next_ent,
                i <= self.ants@.len(),
                self.ants@.len() == orig.ants@.len(),
                amount == dt * (HEALTH_DEGRADATION_RATE as int) / 1000,
                0 <= amount <= 1_000_000,
                forall|k: int|
                    0 <= k < i ==> self.ants@[k] == health_step(orig.ants@[k], dt as int),
                forall|k: int| i <= k < self.ants@.len() ==> self.ants@[k] == orig.ants@[k],
                deaths@ == death_events(self.ants@.take(i as int)),
            decreases self.ants@.len() - i,
        {
            let ghost pre = self.ants@;
            let a = self.ants[i];
            if a.hunger.pct < STARVATION_THRESHOLD {
                let h = a.health.pct - amount;
                let clamped = if h < HEALTH_MIN {
                    HEALTH_MIN
                } else {
                    h
                };
                self.ants[i] = Ant { health: Health { pct: clamped }, ..a };
            }
            let b = self.ants[i];
            if b.health.pct < 0 {
                deaths.push(AntDeathEvent { ent: b.ent });
            }
            proof {
                assert(self.ants@.take(i as int) =~= pre.take(i as int));
                let t2 = self.ants@.take(i + 1);
                assert(t2.drop_last() =~= self.ants@.take(i as int));
                assert(t2.last() == self.ants@[i as int]);
            }
            i += 1;
        }
        proof {
            assert(self.ants@.take(self.ants@.len() as int) =~= self.ants@);
        }
        deaths
    }

    /// Cleanup phase: apply each death signal in order.  A signalled
    /// agent still present leaves one unit of food at its position and is
    /// removed; a repeated signal for the same agent is a no-op.
    pub fn ant_death_handler(&mut self, deaths: &Vec<AntDeathEvent>)
        requires
            old(self).wf(),
            old(self).next_ent as int + deaths@.len() <= u64::MAX as int,
        ensures
            final(self).wf(),
            ant_death_handler_rel(*old(self), *final(self), deaths@),
    {
        let ghost orig = *self;
        let mut e: usize = 0;
        while e < deaths.len()
            invariant
                orig.wf(),
                self.wf(),
                self.width == orig.width,
                self.height == orig.height,
                self.walls@ == orig.walls@,
                self.known_food.locs@ == orig.known_food.locs@,
                e <= deaths@.len(),
                orig.next_ent as int + deaths@.len() <= u64::MAX as int,
                self.next_ent as int <= orig.next_ent as int + e,
                (self.ants@, self.foods@, self.next_ent as int) == apply_deaths(
                    orig.ants@,
                    orig.foods@,
                    orig.next_ent as int,
                    deaths@.take(e as int),
                ),
            decreases deaths@.len() - e,
        {
            let ev = deaths[e];
            match ant_index(&self.ants, ev.ent) {
                Some(i) => {
                    let p = self.ants[i].position;
                    let create = FoodCreateEvent { x: p.x, y: p.y, quantity: 1000 };
                    self.food_create_handler(&create);
                    self.ants.remove(i);
                },
                None => {},
            }
            proof {
                let t2 = deaths@.take(e + 1);
                assert(t2.drop_last() =~= deaths@.take(e as int));
                assert(t2.last() == deaths@[e as int]);
            }
            e += 1;
        }
        proof {
            assert(deaths@.take(deaths@.len() as int) =~= deaths@);
        }
    }
}

} // verus!
