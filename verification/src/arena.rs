//! Spatial primitives: fixed-point positions and sizes on the arena,
//! bounding radii, the distance metric and the collision predicate.
//!
//! Every coordinate, size and distance is an integer number of thousandths
//! of a world unit.  One arena tile is 8 world units on a side; the arena
//! is 200 x 100 tiles.

use vstd::prelude::*;

verus! {

/// Arena width in thousandths of a world unit (200 tiles of 8 units).
pub const ARENA_WIDTH: i64 = 1_600_000;

/// Arena height in thousandths of a world unit (100 tiles of 8 units).
pub const ARENA_HEIGHT: i64 = 800_000;

/// One arena tile side in thousandths of a world unit.
pub const ARENA_TILE_SIDE: i64 = 8_000;

/// Largest coordinate magnitude the distance functions accept.
pub const COORD_LIMIT: i64 = 10_000_000;

/// Largest size factor the radius function accepts.
pub const SIZE_LIMIT: i64 = 1_000_000;

/// A point of the arena, in thousandths of a world unit.
#[derive(Clone, Copy, PartialEq, Eq, Structural, Debug)]
pub struct Position {
    pub x: i64,
    pub y: i64,
}

/// A bounding-box extent, as a proportion of one arena tile side,
/// in thousandths.
#[derive(Clone, Copy, Debug)]
pub struct Size {
    pub width: i64,
    pub height: i64,
}

impl Position {
    /// Coordinates small enough for exact distance arithmetic.
    pub open spec fn wf(self) -> bool {
        -COORD_LIMIT <= self.x <= COORD_LIMIT && -COORD_LIMIT <= self.y <= COORD_LIMIT
    }
}

impl Size {
    /// A size factor the radius computation accepts.
    pub open spec fn wf(self) -> bool {
        0 <= self.width <= SIZE_LIMIT && 0 <= self.height <= SIZE_LIMIT
    }

    pub fn square(x: i64) -> (s: Size)
        ensures
            s.width == x,
            s.height == x,
    {
        Size { width: x, height: x }
    }

    /// Bounding radius: half a tile side times the size factor, scaled by
    /// the square root of two (diagonal of the bounding box).  The factor
    /// 5657 is 4000 times the square root of two, rounded.
    pub fn radius(&self) -> (r: i64)
        requires
            self.wf(),
        ensures
            r == spec_radius(*self),
            0 <= r <= 5_657_000,
    {
        (((self.width as u64) * 5657) / 1000) as i64
    }
}

/// Mathematical bounding radius of a size factor.
pub open spec fn spec_radius(s: Size) -> int {
    s.width * 5657 / 1000
}

/// Strictly inside the rectangle (0, 0) .. (width, height).
pub open spec fn spec_in_bounds(p: Position, width: int, height: int) -> bool {
    0 < p.x < width && 0 < p.y < height
}

/// The largest r with r * r <= n.
pub open spec fn sqrt_floor(n: nat) -> nat
    decreases n,
{
    if n == 0 {
        0
    } else {
        let r = sqrt_floor((n - 1) as nat);
        if (r + 1) * (r + 1) <= n {
            r + 1
        } else {
            r
        }
    }
}

pub proof fn lemma_sqrt_floor_bounds(n: nat)
    ensures
        sqrt_floor(n) * sqrt_floor(n) <= n,
        n < (sqrt_floor(n) + 1) * (sqrt_floor(n) + 1),
    decreases n,
{
    let s = sqrt_floor(n);
    if n == 0 {
        assert(s == 0);
        assert(n < (s + 1) * (s + 1)) by (nonlinear_arith)
            requires
                s == 0,
                n == 0,
        ;
    } else {
        let m = (n - 1) as nat;
        lemma_sqrt_floor_bounds(m);
        let r = sqrt_floor(m);
        if (r + 1) * (r + 1) <= n {
            assert(s == r + 1);
            assert(s * s <= n) by (nonlinear_arith)
                requires
                    s == r + 1,
                    (r + 1) * (r + 1) <= n,
            ;
            assert(n < (s + 1) * (s + 1)) by (nonlinear_arith)
                requires
                    s == r + 1,
                    n <= (r + 1) * (r + 1),
            ;
        } else {
            assert(s == r);
            assert(s * s <= n) by (nonlinear_arith)
                requires
                    s == r,
                    r * r <= m,
                    m < n,
            ;
            assert(n < (s + 1) * (s + 1)) by (nonlinear_arith)
                requires
                    s == r,
                    n < (r + 1) * (r + 1),
            ;
        }
    }
}

pub proof fn lemma_sqrt_floor_unique(n: nat, r: nat)
    requires
        r * r <= n,
        n < (r + 1) * (r + 1),
    ensures
        r == sqrt_floor(n),
{
    lemma_sqrt_floor_bounds(n);
    let s = sqrt_floor(n);
    if r < s {
        assert((r + 1) * (r + 1) <= s * s) by (nonlinear_arith)
            requires
                r + 1 <= s,
        ;
        assert(false);
    } else if s < r {
        assert((s + 1) * (s + 1) <= r * r) by (nonlinear_arith)
            requires
                s + 1 <= r,
        ;
        assert(false);
    }
}

/// Integer square root by bisection.
pub fn isqrt(n: u64) -> (r: u64)
    requires
        n < 0x4_0000_0000_0000,
    ensures
        r as nat == sqrt_floor(n as nat),
        r <= 33_554_432,
{
    let mut lo: u64 = 0;
    let mut hi: u64 = 33_554_432;
    while lo + 1 < hi
        invariant
            lo < hi <= 33_554_432,
            (lo as int) * (lo as int) <= n as int,
            (n as int) < (hi as int) * (hi as int),
        decreases hi - lo,
    {
        let mid = lo + (hi - lo) / 2;
        proof {
            assert(0 <= (mid as int) * (mid as int) < 0x4_0000_0000_0000) by (nonlinear_arith)
                requires
                    0 <= mid < 33_554_432,
            ;
        }
        if mid * mid <= n {
            lo = mid;
        } else {
            hi = mid;
        }
    }
    proof {
        lemma_sqrt_floor_unique(n as nat, lo as nat);
    }
    lo
}

/// Squared center distance.
pub open spec fn spec_dist2(p1: Position, p2: Position) -> int {
    (p1.x - p2.x) * (p1.x - p2.x) + (p1.y - p2.y) * (p1.y - p2.y)
}

/// Center distance, rounded down.
pub open spec fn spec_center_dist(p1: Position, p2: Position) -> int {
    sqrt_floor(spec_dist2(p1, p2) as nat) as int
}

/// Signed clearance: center distance minus both bounding radii.
/// Negative means the two bodies overlap.
pub open spec fn spec_dist_between(p1: Position, s1: Size, p2: Position, s2: Size) -> int {
    spec_center_dist(p1, p2) - spec_radius(s1) - spec_radius(s2)
}

/// Two bodies collide when their clearance is negative.
pub open spec fn spec_collides(p1: Position, s1: Size, p2: Position, s2: Size) -> bool {
    spec_dist_between(p1, s1, p2, s2) < 0
}

/// Center distance, rounded down.  Bounded by the diagonal of the
/// coordinate range.
pub fn center_dist(p1: &Position, p2: &Position) -> (d: i64)
    requires
        p1.wf(),
        p2.wf(),
    ensures
        d == spec_center_dist(*p1, *p2),
        0 <= d <= 33_554_432,
{
    let dx = p1.x - p2.x;
    let dy = p1.y - p2.y;
    proof {
        assert(0 <= dx * dx <= 400_000_000_000_000) by (nonlinear_arith)
            requires
                -20_000_000 <= dx <= 20_000_000,
        ;
        assert(0 <= dy * dy <= 400_000_000_000_000) by (nonlinear_arith)
            requires
                -20_000_000 <= dy <= 20_000_000,
        ;
    }
    let d2 = (dx * dx + dy * dy) as u64;
    isqrt(d2) as i64
}

/// Signed clearance between two bodies, per `spec_dist_between`.
pub fn dist_between(p1: &Position, s1: &Size, p2: &Position, s2: &Size) -> (d: i64)
    requires
        p1.wf(),
        p2.wf(),
        s1.wf(),
        s2.wf(),
    ensures
        d == spec_dist_between(*p1, *s1, *p2, *s2),
{
    center_dist(p1, p2) - s1.radius() - s2.radius()
}

/// True when the two bodies overlap, per `spec_collides`.
pub fn collides(p1: &Position, s1: &Size, p2: &Position, s2: &Size) -> (c: bool)
    requires
        p1.wf(),
        p2.wf(),
        s1.wf(),
        s2.wf(),
    ensures
        c == spec_collides(*p1, *s1, *p2, *s2),
{
    dist_between(p1, s1, p2, s2) < 0
}

/// Collision and the sign of the clearance agree exactly: two bodies
/// collide precisely when the signed distance between them is negative.
pub proof fn lemma_collides_iff_negative_distance(p1: Position, s1: Size, p2: Position, s2: Size)
    ensures
        spec_collides(p1, s1, p2, s2) <==> spec_dist_between(p1, s1, p2, s2) < 0,
{
}

/// A collidable body: movement keeps agents clear of these.
#[derive(Clone, Copy, Debug)]
pub struct Collides {
    pub position: Position,
    pub size: Size,
}

impl Collides {
    pub open spec fn wf(self) -> bool {
        self.position.wf() && self.size.wf()
    }
}

} // verus!
