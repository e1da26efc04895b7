//! Fog-of-war support: which covered tiles some agent can see.  The
//! engine only supplies position and visibility data; clearing the tiles
//! is the presentation layer's business.

use vstd::prelude::*;
use crate::ant::VisibleRange;
use crate::arena::{Position, Size, collides, spec_collides};

verus! {

/// The fog tiles to clear, by index into the tile list.
pub struct FogDieEvent {
    pub fogs: Vec<usize>,
}

/// Whether some looker's visibility circle overlaps the tile.
pub open spec fn spec_fog_seen(
    lookers: Seq<(Position, VisibleRange)>,
    fog: (Position, Size),
) -> bool {
    exists|i: int|
        0 <= i < lookers.len() && spec_collides(lookers[i].0, lookers[i].1.size, fog.0, fog.1)
}

/// The indices of the visible fog tiles, in order.
pub open spec fn spec_visible(
    fogs: Seq<(Position, Size)>,
    lookers: Seq<(Position, VisibleRange)>,
) -> Seq<int>
    decreases fogs.len(),
{
    if fogs.len() == 0 {
        Seq::empty()
    } else {
        let rest = spec_visible(fogs.drop_last(), lookers);
        if spec_fog_seen(lookers, fogs.last()) {
            rest.push(fogs.len() - 1)
        } else {
            rest
        }
    }
}

/// Which fog tiles some looker can see: the death notice for those
/// tiles, in tile order.
pub fn find_visible(
    fogs: &Vec<(Position, Size)>,
    lookers: &Vec<(Position, VisibleRange)>,
) -> (ev: FogDieEvent)
    requires
        forall|i: int|
            0 <= i < fogs@.len() ==> (#[trigger] fogs@[i]).0.wf() && fogs@[i].1.wf(),
        forall|i: int|
            0 <= i < lookers@.len() ==> (#[trigger] lookers@[i]).0.wf() && lookers@[i].1.size.wf(),
    ensures
        ev.fogs@.len() == spec_visible(fogs@, lookers@).len(),
        forall|k: int|
            0 <= k < ev.fogs@.len() ==> #[trigger] ev.fogs@[k] as int == spec_visible(
                fogs@,
                lookers@,
            )[k],
{
    let mut out: Vec<usize> = Vec::new();
    let mut j: usize = 0;
    while j < fogs.len()
        invariant
            j <= fogs@.len(),
            forall|i: int|
                0 <= i < fogs@.len() ==> (#[trigger] fogs@[i]).0.wf() && fogs@[i].1.wf(),
            forall|i: int|
                0 <= i < lookers@.len() ==> (#[trigger] lookers@[i]).0.wf()
                    && lookers@[i].1.size.wf(),
            out@.len() == spec_visible(fogs@.take(j as int), lookers@).len(),
            forall|k: int|
                0 <= k < out@.len() ==> #[trigger] out@[k] as int == spec_visible(
                    fogs@.take(j as int),
                    lookers@,
                )[k],
        decreases fogs@.len() - j,
    {
        let fog = fogs[j];
        let mut seen = false;
        let mut i: usize = 0;
        while i < lookers.len()
            invariant
                i <= lookers@.len(),
                fog == fogs@[j as int],
                j < fogs@.len(),
                forall|i0: int|
                    0 <= i0 < fogs@.len() ==> (#[trigger] fogs@[i0]).0.wf() && fogs@[i0].1.wf(),
                forall|i0: int|
                    0 <= i0 < lookers@.len() ==> (#[trigger] lookers@[i0]).0.wf()
                        && lookers@[i0].1.size.wf(),
                seen ==> spec_fog_seen(lookers@, fog),
                !seen ==> forall|k: int|
                    0 <= k < i ==> !spec_collides(
                        (#[trigger] lookers@[k]).0,
                        lookers@[k].1.size,
                        fog.0,
                        fog.1,
                    ),
            decreases lookers@.len() - i,
    {
            if !seen {
                let l = &lookers[i];
                if collides(&l.0, &l.1.size, &fog.0, &fog.1) {
                    seen = true;
                }
            }
            i += 1;
        }
        if seen {
            out.push(j);
        }
        proof {
            let t2 = fogs@.take(j + 1);
            assert(t2.drop_last() =~= fogs@.take(j as int));
            assert(t2.last() == fogs@[j as int]);
            if !seen {
                assert(!spec_fog_seen(lookers@, fog));
            }
        }
        j += 1;
    }
    proof {
        assert(fogs@.take(fogs@.len() as int) =~= fogs@);
    }
    FogDieEvent { fogs: out }
}

} // verus!
