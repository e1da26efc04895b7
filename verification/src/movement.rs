//! The Move phase: collision-constrained movement under the active AI
//! goal, over a broad-phase-trimmed obstacle set.

use vstd::prelude::*;
use crate::ant::{ANT_SPEED, Ant, AiGoal, QUEEN_SPEED, generate_move_weights};
use crate::arena::{
    Collides, Position, Size, center_dist, collides, dist_between, spec_center_dist,
    spec_collides, spec_dist_between, spec_in_bounds,
};
use crate::rng::{sample_weighted, sum_weights};
use crate::world::{DT_LIMIT, World};

verus! {

/// Candidate step k of the eight, in the order N, E, S, W, NE, SE, SW,
/// NW, each offset by the tick's travel distance d.
pub open spec fn spec_candidate(p: Position, d: int, k: int) -> Position {
    if k == 0 {
        Position { x: p.x, y: (p.y + d) as i64 }
    } else if k == 1 {
        Position { x: (p.x + d) as i64, y: p.y }
    } else if k == 2 {
        Position { x: p.x, y: (p.y - d) as i64 }
    } else if k == 3 {
        Position { x: (p.x - d) as i64, y: p.y }
    } else if k == 4 {
        Position { x: (p.x + d) as i64, y: (p.y + d) as i64 }
    } else if k == 5 {
        Position { x: (p.x + d) as i64, y: (p.y - d) as i64 }
    } else if k == 6 {
        Position { x: (p.x - d) as i64, y: (p.y - d) as i64 }
    } else {
        Position { x: (p.x - d) as i64, y: (p.y + d) as i64 }
    }
}

/// Clear of every obstacle in the set.
pub open spec fn spec_clear(p: Position, s: Size, obstacles: Seq<Collides>) -> bool {
    forall|i: int|
        0 <= i < obstacles.len() ==> !spec_collides(
            p,
            s,
            (#[trigger] obstacles[i]).position,
            obstacles[i].size,
        )
}

/// A legal step: inside the arena and clear of the trimmed obstacles.
pub open spec fn spec_legal(
    p: Position,
    s: Size,
    obstacles: Seq<Collides>,
    width: int,
    height: int,
) -> bool {
    spec_in_bounds(p, width, height) && spec_clear(p, s, obstacles)
}

/// Every outcome the weighted random walk allows: one of the eight legal
/// candidate steps, or standing still exactly when no candidate is legal.
pub open spec fn rw_move_ok(
    a: Ant,
    p: Position,
    obstacles: Seq<Collides>,
    width: int,
    height: int,
    d: int,
) -> bool {
    if exists|k: int|
        0 <= k < 8 && spec_legal(spec_candidate(a.position, d, k), a.size, obstacles, width, height) {
        exists|k: int|
            0 <= k < 8 && p == spec_candidate(a.position, d, k) && spec_legal(
                p,
                a.size,
                obstacles,
                width,
                height,
            )
    } else {
        p == a.position
    }
}

/// Linear interpolation of one coordinate: from moves toward to by the
/// fraction m / cd, rounding toward from.
pub open spec fn toward(from: int, to: int, m: int, cd: int) -> int {
    if to >= from {
        from + (to - from) * m / cd
    } else {
        from - (from - to) * m / cd
    }
}

/// The destination step: travel toward dest by the lesser of the tick's
/// travel distance and the remaining center distance.
pub open spec fn spec_lerp(p: Position, dest: Position, d: int) -> Position {
    let cd = spec_center_dist(p, dest);
    if cd == 0 {
        p
    } else {
        let m = if d < cd {
            d
        } else {
            cd
        };
        Position {
            x: toward(p.x as int, dest.x as int, m, cd) as i64,
            y: toward(p.y as int, dest.y as int, m, cd) as i64,
        }
    }
}

/// Every outcome movement allows for one agent under its goal, over the
/// trimmed obstacle set.
pub open spec fn move_ok(
    a: Ant,
    p: Position,
    obstacles: Seq<Collides>,
    width: int,
    height: int,
    d: int,
) -> bool {
    match a.ai.ai {
        AiGoal::Unset | AiGoal::Wait => p == a.position,
        AiGoal::Destination { dest } => {
            let lp = spec_lerp(a.position, dest, d);
            if spec_clear(lp, a.size, obstacles) {
                p == lp
            } else {
                rw_move_ok(a, p, obstacles, width, height, d)
            }
        },
        _ => rw_move_ok(a, p, obstacles, width, height, d),
    }
}

/// The tick's travel speed of one agent, in world units per time unit.
pub open spec fn spec_speed(a: Ant) -> int {
    if a.queen {
        QUEEN_SPEED as int
    } else {
        ANT_SPEED as int
    }
}

/// The broad-phase trim: the obstacles within the threshold clearance of
/// some agent's start-of-tick position, in their original order.
pub open spec fn spec_trimmed(walls: Seq<Collides>, ants: Seq<Ant>, threshold: int) -> Seq<
    Collides,
>
    decreases walls.len(),
{
    if walls.len() == 0 {
        Seq::empty()
    } else {
        let rest = spec_trimmed(walls.drop_last(), ants, threshold);
        if spec_near_any(walls.last(), ants, threshold) {
            rest.push(walls.last())
        } else {
            rest
        }
    }
}

/// Within the threshold clearance of some agent.
pub open spec fn spec_near_any(w: Collides, ants: Seq<Ant>, threshold: int) -> bool {
    exists|i: int|
        0 <= i < ants.len() && spec_dist_between(
            ants[i].position,
            ants[i].size,
            w.position,
            w.size,
        ) < threshold
}

pub proof fn lemma_trimmed_wf(walls: Seq<Collides>, ants: Seq<Ant>, threshold: int)
    requires
        forall|i: int| 0 <= i < walls.len() ==> (#[trigger] walls[i]).wf(),
    ensures
        forall|i: int|
            0 <= i < spec_trimmed(walls, ants, threshold).len() ==> (#[trigger] spec_trimmed(
                walls,
                ants,
                threshold,
            )[i]).wf(),
    decreases walls.len(),
{
    if walls.len() > 0 {
        let pre = walls.drop_last();
        assert(forall|m: int| 0 <= m < pre.len() ==> pre[m] == walls[m]);
        lemma_trimmed_wf(pre, ants, threshold);
        let rest = spec_trimmed(pre, ants, threshold);
        let res = spec_trimmed(walls, ants, threshold);
        assert forall|i: int| 0 <= i < res.len() implies (#[trigger] res[i]).wf() by {
            if i < rest.len() {
                assert(res[i] == rest[i]);
            } else {
                assert(res[i] == walls.last());
                assert(walls[walls.len() - 1].wf());
            }
        }
    }
}

/// 0 <= a * b / c <= a whenever 0 <= b <= c and c is positive.
pub proof fn lemma_mul_div_le(a: int, b: int, c: int)
    by (nonlinear_arith)
    requires
        0 <= a,
        0 <= b <= c,
        0 < c,
    ensures
        0 <= a * b / c <= a,
{
}

/// Within the threshold clearance of some agent: the broad-phase test.
pub fn near_any_ant(ants: &Vec<Ant>, w: &Collides, threshold: i64) -> (b: bool)
    requires
        forall|i: int|
            0 <= i < ants@.len() ==> (#[trigger] ants@[i]).position.wf() && ants@[i].size.wf(),
        w.wf(),
    ensures
        b == spec_near_any(*w, ants@, threshold as int),
{
    let mut i: usize = 0;
    while i < ants.len()
        invariant
            i <= ants@.len(),
            forall|i0: int|
                0 <= i0 < ants@.len() ==> (#[trigger] ants@[i0]).position.wf()
                    && ants@[i0].size.wf(),
            w.wf(),
            forall|k: int|
                0 <= k < i ==> !(spec_dist_between(
                    (#[trigger] ants@[k]).position,
                    ants@[k].size,
                    w.position,
                    w.size,
                ) < threshold),
        decreases ants@.len() - i,
    {
        let a = &ants[i];
        if dist_between(&a.position, &a.size, &w.position, &w.size) < threshold {
            return true;
        }
        i += 1;
    }
    false
}

/// Clear of every obstacle in the set.
pub fn is_clear(p: &Position, s: &Size, obstacles: &Vec<Collides>) -> (b: bool)
    requires
        p.wf(),
        s.wf(),
        forall|i: int| 0 <= i < obstacles@.len() ==> (#[trigger] obstacles@[i]).wf(),
    ensures
        b == spec_clear(*p, *s, obstacles@),
{
    let mut i: usize = 0;
    while i < obstacles.len()
        invariant
            i <= obstacles@.len(),
            p.wf(),
            s.wf(),
            forall|i0: int| 0 <= i0 < obstacles@.len() ==> (#[trigger] obstacles@[i0]).wf(),
            forall|k: int|
                0 <= k < i ==> !spec_collides(
                    *p,
                    *s,
                    (#[trigger] obstacles@[k]).position,
                    obstacles@[k].size,
                ),
        decreases obstacles@.len() - i,
    {
        let o = &obstacles[i];
        if collides(p, s, &o.position, &o.size) {
            return false;
        }
        i += 1;
    }
    true
}

/// One coordinate of the destination step, with the travel fraction m /
/// cd applied between the two coordinates.
fn toward_step(from: i64, to: i64, m: i64, cd: i64) -> (r: i64)
    requires
        -10_000_000 <= from <= 10_000_000,
        -10_000_000 <= to <= 10_000_000,
        0 < cd <= 33_554_432,
        0 <= m <= cd,
    ensures
        r == toward(from as int, to as int, m as int, cd as int),
        from <= to ==> from <= r <= to,
        to <= from ==> to <= r <= from,
{
    if to >= from {
        let diff = to - from;
        proof {
            assert(0 <= diff * m <= 700_000_000_000_000) by (nonlinear_arith)
                requires
                    0 <= diff <= 20_000_000,
                    0 <= m <= 33_554_432,
            ;
            lemma_mul_div_le(diff as int, m as int, cd as int);
        }
        let step = (((diff as u64) * (m as u64)) / (cd as u64)) as i64;
        from + step
    } else {
        let diff = from - to;
        proof {
            assert(0 <= diff * m <= 700_000_000_000_000) by (nonlinear_arith)
                requires
                    0 <= diff <= 20_000_000,
                    0 <= m <= 33_554_432,
            ;
            lemma_mul_div_le(diff as int, m as int, cd as int);
        }
        let step = (((diff as u64) * (m as u64)) / (cd as u64)) as i64;
        from - step
    }
}

/// The weighted random walk of one agent: pick one legal candidate step
/// by the goal's weight table, or stand still when none is legal.
pub fn random_walk_step(
    a: &Ant,
    d_r: i64,
    trimmed: &Vec<Collides>,
    width: i64,
    height: i64,
) -> (p: Position)
    requires
        a.position.wf(),
        a.size.wf(),
        0 < width <= 10_000_000,
        0 < height <= 10_000_000,
        0 <= d_r <= 50_000_000,
        !(a.ai.ai is Wait),
        !(a.ai.ai is Unset),
        forall|i: int| 0 <= i < trimmed@.len() ==> (#[trigger] trimmed@[i]).wf(),
    ensures
        rw_move_ok(*a, p, trimmed@, width as int, height as int, d_r as int),
        spec_in_bounds(p, width as int, height as int) || p == a.position,
{
    let mut cands: Vec<Position> = Vec::new();
    cands.push(Position { x: a.position.x, y: a.position.y + d_r });
    cands.push(Position { x: a.position.x + d_r, y: a.position.y });
    cands.push(Position { x: a.position.x, y: a.position.y - d_r });
    cands.push(Position { x: a.position.x - d_r, y: a.position.y });
    cands.push(Position { x: a.position.x + d_r, y: a.position.y + d_r });
    cands.push(Position { x: a.position.x + d_r, y: a.position.y - d_r });
    cands.push(Position { x: a.position.x - d_r, y: a.position.y - d_r });
    cands.push(Position { x: a.position.x - d_r, y: a.position.y + d_r });
    proof {
        assert forall|k: int| 0 <= k < 8 implies cands@[k] == spec_candidate(
            a.position,
            d_r as int,
            k,
        ) by {
        }
    }
    let weights = generate_move_weights(a.ai.ai);
    let mut legal: Vec<Position> = Vec::new();
    let mut lw: Vec<i64> = Vec::new();
    let mut wsum: i64 = 0;
    let mut k: usize = 0;
    while k < 8
        invariant
            k <= 8,
            cands@.len() == 8,
            weights@.len() == 8,
            a.position.wf(),
            a.size.wf(),
            0 < width <= 10_000_000,
            0 < height <= 10_000_000,
            forall|k0: int| 0 <= k0 < 8 ==> 1 <= #[trigger] weights@[k0] <= 16,
            forall|k0: int|
                0 <= k0 < 8 ==> cands@[k0] == spec_candidate(a.position, d_r as int, k0),
            forall|i0: int| 0 <= i0 < trimmed@.len() ==> (#[trigger] trimmed@[i0]).wf(),
            legal@.len() == lw@.len(),
            lw@.len() <= k,
            wsum == sum_weights(lw@),
            lw@.len() <= wsum <= 16 * lw@.len(),
            forall|m0: int| 0 <= m0 < lw@.len() ==> 1 <= #[trigger] lw@[m0] <= 16,
            forall|m0: int|
                0 <= m0 < legal@.len() ==> exists|k0: int|
                    0 <= k0 < 8 && #[trigger] legal@[m0] == spec_candidate(
                        a.position,
                        d_r as int,
                        k0,
                    ) && spec_legal(legal@[m0], a.size, trimmed@, width as int, height as int),
            legal@.len() == 0 ==> forall|k0: int|
                0 <= k0 < k ==> !spec_legal(
                    spec_candidate(a.position, d_r as int, k0),
                    a.size,
                    trimmed@,
                    width as int,
                    height as int,
                ),
        decreases 8 - k,
    {
        let c = cands[k];
        let inside = 0 < c.x && c.x < width && 0 < c.y && c.y < height;
        if inside {
            if is_clear(&c, &a.size, trimmed) {
                let ghost lw0 = lw@;
                legal.push(c);
                lw.push(weights[k]);
                wsum = wsum + weights[k];
                proof {
                    assert(lw@.drop_last() =~= lw0);
                    assert(sum_weights(lw@) == sum_weights(lw0) + lw@.last() as int);
                }
            }
        }
        k += 1;
    }
    if legal.len() == 1 {
        legal[0]
    } else if legal.len() > 0 {
        let idx = sample_weighted(&lw);
        legal[idx]
    } else {
        // No legal step this tick: a recoverable condition, the agent
        // stands still.
        a.position
    }
}

/// What the movement resolver does, start state to end state: only
/// positions change, and each agent's new position is one its goal
/// allows over the trimmed obstacle set.
pub open spec fn ant_movement_rel(w0: World, w1: World, dt: int) -> bool {
    &&& w1.same_frame(w0)
    &&& w1.foods@ == w0.foods@
    &&& w1.known_food.locs@ == w0.known_food.locs@
    &&& w1.next_ent == w0.next_ent
    &&& w1.ants@.len() == w0.ants@.len()
    &&& forall|i: int|
        0 <= i < w0.ants@.len() ==> w1.ants@[i] == (Ant {
            position: w1.ants@[i].position,
            ..w0.ants@[i]
        })
    &&& forall|i: int|
        0 <= i < w0.ants@.len() ==> move_ok(
            w0.ants@[i],
            w1.ants@[i].position,
            spec_trimmed(w0.walls@, w0.ants@, 100 * dt),
            w0.width as int,
            w0.height as int,
            spec_speed(w0.ants@[i]) * dt,
        )
}

impl World {
    /// Move phase: every agent takes the step its goal allows, if a legal
    /// one exists, over the obstacles the broad-phase trim kept.  Agents
    /// end the phase inside the arena and clear of the trimmed obstacles
    /// unless they stood still.
    pub fn ant_movement(&mut self, dt: i64)
        requires
            old(self).wf(),
            0 <= dt <= DT_LIMIT,
        ensures
            final(self).wf(),
            ant_movement_rel(*old(self), *final(self), dt as int),
    {
        let ghost orig = *self;
        let threshold = 100 * dt;

        // Broad-phase trim against start-of-tick agent positions.
        let mut trimmed: Vec<Collides> = Vec::new();
        let mut t: usize = 0;
        while t < self.walls.len()
            invariant
                *self == orig,
                orig.wf(),
                t <= self.walls@.len(),
                threshold == 100 * dt,
                trimmed@ == spec_trimmed(self.walls@.take(t as int), self.ants@, threshold as int),
            decreases self.walls@.len() - t,
        {
            let w = self.walls[t];
            if near_any_ant(&self.ants, &w, threshold) {
                trimmed.push(w);
            }
            proof {
                let t2 = self.walls@.take(t + 1);
                assert(t2.drop_last() =~= self.walls@.take(t as int));
                assert(t2.last() == self.walls@[t as int]);
            }
            t += 1;
        }
        proof {
            assert(self.walls@.take(self.walls@.len() as int) =~= self.walls@);
            lemma_trimmed_wf(orig.walls@, orig.ants@, threshold as int);
        }

        let ghost tr = trimmed@;
        let mut i: usize = 0;
        while i < self.ants.len()
            invariant
                orig.wf(),
                self.wf(),
                0 <= dt <= DT_LIMIT,
                trimmed@ == tr,
                tr == spec_trimmed(orig.walls@, orig.ants@, 100 * dt),
                forall|i0: int| 0 <= i0 < tr.len() ==> (#[trigger] tr[i0]).wf(),
                self.width == orig.width,
                self.height == orig.height,
                self.walls@ == orig.walls@,
                self.foods@ == orig.foods@,
                self.known_food.locs@ == orig.known_food.locs@,
                self.next_ent == orig.next_ent,
                i <= self.ants@.len(),
                self.ants@.len() == orig.ants@.len(),
                forall|k: int|
                    0 <= k < i ==> self.ants@[k] == (Ant {
                        position: self.ants@[k].position,
                        ..orig.ants@[k]
                    }),
                forall|k: int|
                    0 <= k < i ==> move_ok(
                        orig.ants@[k],
                        self.ants@[k].position,
                        tr,
                        orig.width as int,
                        orig.height as int,
                        spec_speed(orig.ants@[k]) * dt,
                    ),
                forall|k: int| i <= k < self.ants@.len() ==> self.ants@[k] == orig.ants@[k],
            decreases self.ants@.len() - i,
        {
            let a = self.ants[i];
            let d_r = if a.queen {
                QUEEN_SPEED * dt
            } else {
                ANT_SPEED * dt
            };
            let mut walk = false;
            match a.ai.ai {
                AiGoal::Unset | AiGoal::Wait => {},
                AiGoal::Destination { dest } => {
                    let cd = center_dist(&a.position, &dest);
                    let lp = if cd == 0 {
                        a.position
                    } else {
                        let m = if d_r < cd {
                            d_r
                        } else {
                            cd
                        };
                        Position {
                            x: toward_step(a.position.x, dest.x, m, cd),
                            y: toward_step(a.position.y, dest.y, m, cd),
                        }
                    };
                    proof {
                        assert(lp == spec_lerp(a.position, dest, d_r as int));
                    }
                    if is_clear(&lp, &a.size, &trimmed) {
                        self.ants[i] = Ant { position: lp, ..a };
                    } else {
                        walk = true;
                    }
                },
                _ => {
                    walk = true;
                },
            }
            if walk {
                let p = random_walk_step(&a, d_r, &trimmed, self.width, self.height);
                self.ants[i] = Ant { position: p, ..a };
            }
            i += 1;
        }
    }
}

} // verus!
