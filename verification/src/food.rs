//! Food resources and lookup by identity.

use vstd::prelude::*;
use crate::arena::{Position, Size, spec_in_bounds};

verus! {

/// Largest food quantity the store accepts, in thousandths.
pub const QUANTITY_LIMIT: i64 = 1_000_000_000;

/// A discoverable food resource.  Quantity is in thousandths of a unit;
/// the store drops a resource once its quantity is no longer positive.
#[derive(Clone, Copy, Debug)]
pub struct Food {
    pub ent: u64,
    pub position: Position,
    pub size: Size,
    pub quantity: i64,
}

impl Food {
    /// Well-formed within an arena of the given extent.  The quantity may
    /// sit at or below zero only inside the eat pass, before the store
    /// drops the resource; the world invariant demands positivity between
    /// phases.
    pub open spec fn wf(self, width: int, height: int) -> bool {
        &&& self.position.wf()
        &&& spec_in_bounds(self.position, width, height)
        &&& self.size.wf()
        &&& -1_000_000 <= self.quantity <= QUANTITY_LIMIT
    }
}

/// A request to create a food resource, as the death-recycling rule and
/// the spawner issue them.
#[derive(Clone, Copy, PartialEq, Eq, Structural, Debug)]
pub struct FoodCreateEvent {
    pub x: i64,
    pub y: i64,
    pub quantity: i64,
}

/// Whether the store holds a resource with this identity.
pub open spec fn spec_food_exists(foods: Seq<Food>, ent: u64) -> bool {
    exists|i: int| 0 <= i < foods.len() && foods[i].ent == ent
}

/// Index of the first resource with this identity, or -1.
pub open spec fn spec_food_index(foods: Seq<Food>, ent: u64) -> int
    decreases foods.len(),
{
    if foods.len() == 0 {
        -1
    } else if foods[0].ent == ent {
        0
    } else {
        let r = spec_food_index(foods.drop_first(), ent);
        if r < 0 {
            -1
        } else {
            r + 1
        }
    }
}

pub proof fn lemma_food_index_props(foods: Seq<Food>, ent: u64)
    ensures
        spec_food_index(foods, ent) >= 0 <==> spec_food_exists(foods, ent),
        spec_food_exists(foods, ent) ==> {
            let j = spec_food_index(foods, ent);
            &&& 0 <= j < foods.len()
            &&& foods[j].ent == ent
            &&& forall|k: int| 0 <= k < j ==> foods[k].ent != ent
        },
    decreases foods.len(),
{
    if foods.len() > 0 && foods[0].ent != ent {
        lemma_food_index_props(foods.drop_first(), ent);
        let rest = foods.drop_first();
        assert(forall|i: int|
            0 <= i < rest.len() ==> rest[i] == foods[i + 1]);
        if spec_food_exists(foods, ent) {
            let w = choose|i: int| 0 <= i < foods.len() && foods[i].ent == ent;
            assert(w > 0);
            assert(rest[w - 1].ent == ent);
        }
        if spec_food_exists(rest, ent) {
            let r = spec_food_index(rest, ent);
            assert(foods[r + 1].ent == ent);
            assert forall|k: int| 0 <= k < r + 1 implies foods[k].ent != ent by {
                if k > 0 {
                    assert(rest[k - 1].ent != ent);
                    assert(foods[k] == rest[k - 1]);
                }
            }
        }
    }
}

/// Find the first resource with this identity.
pub fn food_index(foods: &Vec<Food>, ent: u64) -> (r: Option<usize>)
    ensures
        match r {
            Some(j) => j as int == spec_food_index(foods@, ent) && j < foods@.len()
                && foods@[j as int].ent == ent,
            None => !spec_food_exists(foods@, ent),
        },
{
    proof {
        lemma_food_index_props(foods@, ent);
    }
    let mut j: usize = 0;
    while j < foods.len()
        invariant
            j <= foods@.len(),
            forall|k: int| 0 <= k < j ==> foods@[k].ent != ent,
        decreases foods@.len() - j,
    {
        if foods[j].ent == ent {
            proof {
                lemma_food_index_first(foods@, ent, j as int);
            }
            return Some(j);
        }
        j += 1;
    }
    None
}

/// A first match after a clean prefix is the index the spec names.
pub proof fn lemma_food_index_first(foods: Seq<Food>, ent: u64, j: int)
    requires
        0 <= j < foods.len(),
        foods[j].ent == ent,
        forall|k: int| 0 <= k < j ==> foods[k].ent != ent,
    ensures
        spec_food_index(foods, ent) == j,
    decreases j,
{
    if j > 0 {
        let rest = foods.drop_first();
        assert(forall|i: int|
            0 <= i < rest.len() ==> rest[i] == foods[i + 1]);
        lemma_food_index_first(rest, ent, j - 1);
    }
}

} // verus!
