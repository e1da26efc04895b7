//! The Decide phase: prune the registry of vanished resources, record
//! newly sighted food, and send hungry idle agents after the nearest
//! known resource.

use vstd::prelude::*;
use crate::ant::{Ant, AntAI, AiGoal, ForageState};
use crate::arena::{Position, Size, collides, dist_between, spec_collides, spec_dist_between};
use crate::food::{Food, food_index, spec_food_exists, spec_food_index, lemma_food_index_props};
use crate::world::World;

verus! {

/// Hunger below this sends an idle agent looking for food.
pub const LOW_HUNGER_THRESHOLD: i64 = 220;

/// No entry appears twice.
pub open spec fn nodup(s: Seq<u64>) -> bool {
    forall|i: int, j: int| 0 <= i < j < s.len() ==> s[i] != s[j]
}

/// The registry after pruning: the entries whose resource still exists,
/// in their original order.
pub open spec fn prune_known(locs: Seq<u64>, foods: Seq<Food>) -> Seq<u64>
    decreases locs.len(),
{
    if locs.len() == 0 {
        Seq::empty()
    } else {
        let rest = prune_known(locs.drop_last(), foods);
        if spec_food_exists(foods, locs.last()) {
            rest.push(locs.last())
        } else {
            rest
        }
    }
}

pub proof fn lemma_prune_known_props(locs: Seq<u64>, foods: Seq<Food>)
    ensures
        forall|k: int|
            0 <= k < prune_known(locs, foods).len() ==> spec_food_exists(
                foods,
                #[trigger] prune_known(locs, foods)[k],
            ) && locs.contains(prune_known(locs, foods)[k]),
        forall|e: u64|
            locs.contains(e) && spec_food_exists(foods, e) ==> prune_known(
                locs,
                foods,
            ).contains(e),
        nodup(locs) ==> nodup(prune_known(locs, foods)),
    decreases locs.len(),
{
    if locs.len() > 0 {
        let pre = locs.drop_last();
        lemma_prune_known_props(pre, foods);
        let rest = prune_known(pre, foods);
        let res = prune_known(locs, foods);
        assert(forall|m: int| 0 <= m < pre.len() ==> pre[m] == locs[m]);
        assert forall|k: int|
            0 <= k < res.len() implies spec_food_exists(foods, #[trigger] res[k])
            && locs.contains(res[k]) by {
            if k < rest.len() {
                assert(res[k] == rest[k]);
                let m = choose|m: int| 0 <= m < pre.len() && pre[m] == rest[k];
                assert(locs[m] == rest[k]);
            } else {
                assert(res[k] == locs.last());
                assert(locs[locs.len() - 1] == locs.last());
            }
        }
        assert forall|e: u64| locs.contains(e) && spec_food_exists(foods, e) implies res.contains(
            e,
        ) by {
            let m = choose|m: int| 0 <= m < locs.len() && locs[m] == e;
            if m < locs.len() - 1 {
                assert(pre[m] == e);
                let k = choose|k: int| 0 <= k < rest.len() && rest[k] == e;
                assert(res[k] == e);
            } else {
                assert(res[res.len() - 1] == e);
            }
        }
        if nodup(locs) {
            assert(nodup(pre));
            if spec_food_exists(foods, locs.last()) {
                assert forall|i: int, j: int| 0 <= i < j < res.len() implies res[i] != res[j] by {
                    if j == res.len() - 1 {
                        assert(res[i] == rest[i]);
                        let m = choose|m: int| 0 <= m < pre.len() && pre[m] == rest[i];
                        assert(locs[m] == res[i]);
                        assert(locs[locs.len() - 1] == res[j]);
                    }
                }
            }
        }
    }
}

/// Whether some agent's visibility circle overlaps the resource.
pub open spec fn spec_seen_by_any(ants: Seq<Ant>, f: Food) -> bool {
    exists|i: int|
        0 <= i < ants.len() && spec_collides(
            ants[i].position,
            ants[i].visibility.size,
            f.position,
            f.size,
        )
}

/// Identities added by discovery: resources not yet in the registry that
/// some agent can see, in store order.
pub open spec fn discovered(foods: Seq<Food>, known: Seq<u64>, ants: Seq<Ant>) -> Seq<u64>
    decreases foods.len(),
{
    if foods.len() == 0 {
        Seq::empty()
    } else {
        let rest = discovered(foods.drop_last(), known, ants);
        let f = foods.last();
        if !known.contains(f.ent) && spec_seen_by_any(ants, f) {
            rest.push(f.ent)
        } else {
            rest
        }
    }
}

pub proof fn lemma_discovered_props(foods: Seq<Food>, known: Seq<u64>, ants: Seq<Ant>)
    ensures
        forall|k: int|
            0 <= k < discovered(foods, known, ants).len() ==> !known.contains(
                #[trigger] discovered(foods, known, ants)[k],
            ) && exists|i: int|
                0 <= i < foods.len() && foods[i].ent == discovered(foods, known, ants)[k]
                    && spec_seen_by_any(ants, foods[i]),
        forall|i: int|
            0 <= i < foods.len() && !known.contains(#[trigger] foods[i].ent) && spec_seen_by_any(
                ants,
                foods[i],
            ) ==> discovered(foods, known, ants).contains(foods[i].ent),
        (forall|i: int, j: int| 0 <= i < j < foods.len() ==> foods[i].ent != foods[j].ent)
            ==> nodup(discovered(foods, known, ants)),
    decreases foods.len(),
{
    if foods.len() > 0 {
        let pre = foods.drop_last();
        lemma_discovered_props(pre, known, ants);
        let rest = discovered(pre, known, ants);
        let res = discovered(foods, known, ants);
        assert(forall|m: int| 0 <= m < pre.len() ==> pre[m] == foods[m]);
        assert forall|k: int|
            0 <= k < res.len() implies !known.contains(#[trigger] res[k]) && exists|i: int|
            0 <= i < foods.len() && foods[i].ent == res[k] && spec_seen_by_any(ants, foods[i]) by {
            if k < rest.len() {
                assert(res[k] == rest[k]);
                let i = choose|i: int|
                    0 <= i < pre.len() && pre[i].ent == rest[k] && spec_seen_by_any(ants, pre[i]);
                assert(foods[i].ent == res[k] && spec_seen_by_any(ants, foods[i]));
            } else {
                assert(res[k] == foods.last().ent);
                assert(foods[foods.len() - 1].ent == res[k] && spec_seen_by_any(
                    ants,
                    foods[foods.len() - 1],
                ));
            }
        }
        assert forall|i: int|
            0 <= i < foods.len() && !known.contains(#[trigger] foods[i].ent) && spec_seen_by_any(
                ants,
                foods[i],
            ) implies res.contains(foods[i].ent) by {
            if i < foods.len() - 1 {
                assert(pre[i] == foods[i]);
                assert(rest.contains(foods[i].ent));
                let k = choose|k: int| 0 <= k < rest.len() && rest[k] == foods[i].ent;
                assert(res[k] == foods[i].ent);
            } else {
                if !known.contains(foods.last().ent) && spec_seen_by_any(ants, foods.last()) {
                    assert(res[res.len() - 1] == foods[i].ent);
                }
            }
        }
        if forall|i: int, j: int| 0 <= i < j < foods.len() ==> foods[i].ent != foods[j].ent {
            let f = foods.last();
            if !known.contains(f.ent) && spec_seen_by_any(ants, f) {
                assert forall|i: int, j: int| 0 <= i < j < res.len() implies res[i] != res[j] by {
                    if j == res.len() - 1 {
                        assert(res[i] == rest[i]);
                        let m = choose|m: int|
                            0 <= m < pre.len() && pre[m].ent == rest[i] && spec_seen_by_any(
                                ants,
                                pre[m],
                            );
                        assert(foods[m].ent == res[i]);
                        assert(foods[foods.len() - 1].ent == res[j]);
                    }
                }
            }
        }
    }
}

/// Whether the registry lists this identity.
pub fn locs_contains(locs: &Vec<u64>, e: u64) -> (b: bool)
    ensures
        b == locs@.contains(e),
{
    let mut i: usize = 0;
    while i < locs.len()
        invariant
            i <= locs@.len(),
            forall|k: int| 0 <= k < i ==> locs@[k] != e,
        decreases locs@.len() - i,
    {
        if locs[i] == e {
            return true;
        }
        i += 1;
    }
    false
}

/// Whether some agent's visibility circle overlaps the resource.
pub fn seen_by_any(ants: &Vec<Ant>, f: &Food) -> (b: bool)
    requires
        forall|i: int|
            0 <= i < ants@.len() ==> (#[trigger] ants@[i]).position.wf()
                && ants@[i].visibility.size.wf(),
        f.position.wf(),
        f.size.wf(),
    ensures
        b == spec_seen_by_any(ants@, *f),
{
    let mut i: usize = 0;
    while i < ants.len()
        invariant
            i <= ants@.len(),
            forall|i0: int|
                0 <= i0 < ants@.len() ==> (#[trigger] ants@[i0]).position.wf()
                    && ants@[i0].visibility.size.wf(),
            f.position.wf(),
            f.size.wf(),
            forall|k: int|
                0 <= k < i ==> !spec_collides(
                    (#[trigger] ants@[k]).position,
                    ants@[k].visibility.size,
                    f.position,
                    f.size,
                ),
        decreases ants@.len() - i,
    {
        let a = &ants[i];
        if collides(&a.position, &a.visibility.size, &f.position, &f.size) {
            return true;
        }
        i += 1;
    }
    false
}

/// Size used for a food resource when ranking and testing arrival:
/// half a tile.
pub open spec fn spec_half_tile() -> Size {
    Size { width: 500, height: 500 }
}

/// The nearest known live resource by signed clearance, scanning the
/// registry in order and keeping the first seen on ties.
pub open spec fn best_known_food(locs: Seq<u64>, foods: Seq<Food>, a: Ant) -> Option<Food>
    decreases locs.len(),
{
    if locs.len() == 0 {
        Option::None
    } else {
        let prev = best_known_food(locs.drop_last(), foods, a);
        let e = locs.last();
        if spec_food_exists(foods, e) {
            let f = foods[spec_food_index(foods, e)];
            match prev {
                Option::None => Option::Some(f),
                Option::Some(g) => {
                    if spec_dist_between(a.position, a.size, f.position, spec_half_tile())
                        < spec_dist_between(a.position, a.size, g.position, spec_half_tile()) {
                        Option::Some(f)
                    } else {
                        Option::Some(g)
                    }
                },
            }
        } else {
            prev
        }
    }
}

pub proof fn lemma_best_known_food_in_store(locs: Seq<u64>, foods: Seq<Food>, a: Ant)
    ensures
        best_known_food(locs, foods, a) matches Option::Some(f) ==> exists|i: int|
            0 <= i < foods.len() && foods[i] == f,
    decreases locs.len(),
{
    if locs.len() > 0 {
        lemma_best_known_food_in_store(locs.drop_last(), foods, a);
        let e = locs.last();
        if spec_food_exists(foods, e) {
            lemma_food_index_props(foods, e);
        }
    }
}

/// The agent sent seeking toward a destination, with an effectively
/// non-expiring countdown: arrival, not expiry, ends this goal.
pub open spec fn with_destination(a: Ant, dest: Position) -> Ant {
    Ant {
        forage: ForageState::Seeking,
        ai: AntAI { ai: AiGoal::Destination { dest }, duration: 100_000_000 },
        ..a
    }
}

/// What destination assignment does to one agent: an idle agent whose
/// hunger is below the low-hunger threshold heads for the nearest known
/// live resource, if the registry offers one; everyone else is left alone.
pub open spec fn food_goal_step(a: Ant, locs: Seq<u64>, foods: Seq<Food>) -> Ant {
    if a.forage is Idle && a.hunger.pct < LOW_HUNGER_THRESHOLD {
        match best_known_food(locs, foods, a) {
            Option::Some(f) => with_destination(a, f.position),
            Option::None => a,
        }
    } else {
        a
    }
}

/// What the prune step does, start state to end state.
pub open spec fn clean_food_rel(w0: World, w1: World) -> bool {
    &&& w1.same_frame(w0)
    &&& w1.ants@ == w0.ants@
    &&& w1.foods@ == w0.foods@
    &&& w1.next_ent == w0.next_ent
    &&& w1.known_food.locs@ == prune_known(w0.known_food.locs@, w0.foods@)
}

/// What the discovery step does, start state to end state.
pub open spec fn locate_food_rel(w0: World, w1: World) -> bool {
    &&& w1.same_frame(w0)
    &&& w1.ants@ == w0.ants@
    &&& w1.foods@ == w0.foods@
    &&& w1.next_ent == w0.next_ent
    &&& w1.known_food.locs@ == w0.known_food.locs@ + discovered(
        w0.foods@,
        w0.known_food.locs@,
        w0.ants@,
    )
}

/// What destination assignment does, start state to end state.
pub open spec fn add_food_goal_rel(w0: World, w1: World) -> bool {
    &&& w1.same_frame(w0)
    &&& w1.foods@ == w0.foods@
    &&& w1.known_food.locs@ == w0.known_food.locs@
    &&& w1.next_ent == w0.next_ent
    &&& w1.ants@.len() == w0.ants@.len()
    &&& forall|i: int|
        0 <= i < w0.ants@.len() ==> w1.ants@[i] == food_goal_step(
            w0.ants@[i],
            w0.known_food.locs@,
            w0.foods@,
        )
}

impl World {
    /// Decide phase, step one: drop every registry entry whose resource
    /// no longer exists.  Afterwards every entry names a live resource.
    pub fn clean_food(&mut self)
        requires
            old(self).wf(),
        ensures
            final(self).wf(),
            clean_food_rel(*old(self), *final(self)),
            forall|k: int|
                0 <= k < final(self).known_food.locs@.len() ==> spec_food_exists(
                    final(self).foods@,
                    #[trigger] final(self).known_food.locs@[k],
                ),
    {
        let ghost orig = *self;
        let mut kept: Vec<u64> = Vec::new();
        let mut i: usize = 0;
        while i < self.known_food.locs.len()
            invariant
                *self == orig,
                orig.wf(),
                i <= self.known_food.locs@.len(),
                kept@ == prune_known(self.known_food.locs@.take(i as int), self.foods@),
            decreases self.known_food.locs@.len() - i,
        {
            let ent = self.known_food.locs[i];
            match food_index(&self.foods, ent) {
                Some(j) => {
                    proof {
                        assert(spec_food_exists(self.foods@, ent));
                    }
                    kept.push(ent);
                },
                None => {},
            }
            proof {
                let t2 = self.known_food.locs@.take(i + 1);
                assert(t2.drop_last() =~= self.known_food.locs@.take(i as int));
                assert(t2.last() == self.known_food.locs@[i as int]);
            }
            i += 1;
        }
        proof {
            assert(self.known_food.locs@.take(self.known_food.locs@.len() as int)
                =~= self.known_food.locs@);
            lemma_prune_known_props(self.known_food.locs@, self.foods@);
        }
        self.known_food.locs = kept;
    }

    /// Decide phase, step two: record every resource not yet in the
    /// registry that some agent's visibility circle overlaps.
    pub fn locate_food(&mut self)
        requires
            old(self).wf(),
        ensures
            final(self).wf(),
            locate_food_rel(*old(self), *final(self)),
    {
        let ghost orig = *self;
        let mut added: Vec<u64> = Vec::new();
        let mut j: usize = 0;
        while j < self.foods.len()
            invariant
                *self == orig,
                orig.wf(),
                j <= self.foods@.len(),
                added@ == discovered(
                    self.foods@.take(j as int),
                    self.known_food.locs@,
                    self.ants@,
                ),
            decreases self.foods@.len() - j,
        {
            let f = self.foods[j];
            let is_known = locs_contains(&self.known_food.locs, f.ent);
            if !is_known {
                if seen_by_any(&self.ants, &f) {
                    added.push(f.ent);
                }
            }
            proof {
                let t2 = self.foods@.take(j + 1);
                assert(t2.drop_last() =~= self.foods@.take(j as int));
                assert(t2.last() == self.foods@[j as int]);
            }
            j += 1;
        }
        proof {
            assert(self.foods@.take(self.foods@.len() as int) =~= self.foods@);
            lemma_discovered_props(orig.foods@, orig.known_food.locs@, orig.ants@);
        }
        let ghost known0 = self.known_food.locs@;
        self.known_food.locs.append(&mut added);
        proof {
            let all = self.known_food.locs@;
            let disc = discovered(orig.foods@, orig.known_food.locs@, orig.ants@);
            assert(all == known0 + disc);
            assert forall|i: int, k: int| 0 <= i < k < all.len() implies all[i] != all[k] by {
                if i < known0.len() && k >= known0.len() {
                    assert(all[i] == known0[i]);
                    assert(all[k] == disc[k - known0.len()]);
                    assert(!known0.contains(disc[k - known0.len()]));
                    if all[i] == all[k] {
                        assert(known0.contains(disc[k - known0.len()]));
                    }
                } else if i >= known0.len() {
                    assert(all[i] == disc[i - known0.len()]);
                    assert(all[k] == disc[k - known0.len()]);
                }
            }
        }
    }

    /// Decide phase, step three: send each hungry idle agent seeking the
    /// nearest known live resource.
    pub fn add_food_goal(&mut self)
        requires
            old(self).wf(),
        ensures
            final(self).wf(),
            add_food_goal_rel(*old(self), *final(self)),
    {
        let ghost orig = *self;
        let mut i: usize = 0;
        while i < self.ants.len()
            invariant
                orig.wf(),
                self.wf(),
                self.width == orig.width,
                self.height == orig.height,
                self.walls@ == orig.walls@,
                self.foods@ == orig.foods@,
                self.known_food.locs@ == orig.known_food.locs@,
                self.next_ent == orig.next_ent,
                i <= self.ants@.len(),
                self.ants@.len() == orig.ants@.len(),
                forall|k: int|
                    0 <= k < i ==> self.ants@[k] == food_goal_step(
                        orig.ants@[k],
                        orig.known_food.locs@,
                        orig.foods@,
                    ),
                forall|k: int| i <= k < self.ants@.len() ==> self.ants@[k] == orig.ants@[k],
            decreases self.ants@.len() - i,
        {
            let a = self.ants[i];
            let is_idle = match a.forage {
                ForageState::Idle => true,
                _ => false,
            };
            if is_idle && a.hunger.pct < LOW_HUNGER_THRESHOLD && self.known_food.locs.len() > 0 {
                let half = Size::square(500);
                let mut best: Option<Food> = None;
                let mut best_dist: i64 = 0;
                let mut k: usize = 0;
                while k < self.known_food.locs.len()
                    invariant
                        self.wf(),
                        a.position.wf(),
                        a.size.wf(),
                        half.wf(),
                        half == spec_half_tile(),
                        k <= self.known_food.locs@.len(),
                        best is None ==> best_known_food(
                            self.known_food.locs@.take(k as int),
                            self.foods@,
                            a,
                        ) is None,
                        best matches Some(bf) ==> best_known_food(
                            self.known_food.locs@.take(k as int),
                            self.foods@,
                            a,
                        ) == Some(bf) && best_dist == spec_dist_between(
                            a.position,
                            a.size,
                            bf.position,
                            spec_half_tile(),
                        ) && bf.position.wf(),
                    decreases self.known_food.locs@.len() - k,
                {
                    let ent = self.known_food.locs[k];
                    match food_index(&self.foods, ent) {
                        Some(j) => {
                            let f = self.foods[j];
                            let d = dist_between(&a.position, &a.size, &f.position, &half);
                            match best {
                                Some(_) => {
                                    if d < best_dist {
                                        best = Some(f);
                                        best_dist = d;
                                    }
                                },
                                None => {
                                    best = Some(f);
                                    best_dist = d;
                                },
                            }
                        },
                        None => {},
                    }
                    proof {
                        let t2 = self.known_food.locs@.take(k + 1);
                        assert(t2.drop_last() =~= self.known_food.locs@.take(k as int));
                        assert(t2.last() == self.known_food.locs@[k as int]);
                    }
                    k += 1;
                }
                proof {
                    assert(self.known_food.locs@.take(self.known_food.locs@.len() as int)
                        =~= self.known_food.locs@);
                }
                match best {
                    Some(f) => {
                        self.ants[i] = Ant {
                            forage: ForageState::Seeking,
                            ai: AntAI {
                                ai: AiGoal::Destination { dest: f.position },
                                duration: 100_000_000,
                            },
                            ..a
                        };
                        proof {
                            lemma_best_known_food_in_store(
                                orig.known_food.locs@,
                                orig.foods@,
                                a,
                            );
                        }
                    },
                    None => {},
                }
            }
            i += 1;
        }
    }
}

} // verus!
