//! Choosing the OpenGL configuration of the main window: the interface
//! needs as few extras as available.
use vstd::prelude::*;

verus! {

/// What a configuration offers beyond the plain needs of the interface:
/// multisampling samples, depth bits and stencil bits.
#[derive(Clone, Copy, PartialEq, Eq, Structural, Debug)]
pub struct ConfigScore {
    pub samples: u8,
    pub depth: u8,
    pub stencil: u8,
}

/// `a` offers less than `b`: fewer samples, or as many and less depth, or
/// as much of both and less stencil.
pub open spec fn offers_less(a: ConfigScore, b: ConfigScore) -> bool {
    a.samples < b.samples || (a.samples == b.samples && (a.depth < b.depth || (a.depth == b.depth
        && a.stencil < b.stencil)))
}

fn less(a: ConfigScore, b: ConfigScore) -> (r: bool)
    ensures
        r == offers_less(a, b),
{
    a.samples < b.samples || (a.samples == b.samples && (a.depth < b.depth || (a.depth == b.depth
        && a.stencil < b.stencil)))
}

/// The configuration that the main window takes among those offered, by
/// their scores: the first of those that offer least. Each offered
/// configuration replaces the one kept so far only where it offers less.
pub fn choose_config(scores: &Vec<ConfigScore>) -> (r: usize)
    requires
        scores.len() > 0,
    ensures
        r < scores.len(),
        forall|j: int| 0 <= j < r ==> offers_less(scores@[r as int], #[trigger] scores@[j]),
        forall|j: int| r < j < scores.len() ==> !offers_less(#[trigger] scores@[j], scores@[r as int]),
{
    let mut best: usize = 0;
    let mut i: usize = 1;
    while i < scores.len()
        invariant
            1 <= i <= scores.len(),
            best < i,
            forall|j: int| 0 <= j < best ==> offers_less(scores@[best as int], #[trigger] scores@[j]),
            forall|j: int| best < j < i ==> !offers_less(#[trigger] scores@[j], scores@[best as int]),
        decreases scores.len() - i,
    {
        if less(scores[i], scores[best]) {
            best = i;
        }
        i = i + 1;
    }
    best
}

/// No offered configuration offers less than the chosen one: it is a least
/// one.
pub proof fn lemma_chosen_is_least(scores: Seq<ConfigScore>, r: int, j: int)
    requires
        0 <= r < scores.len(),
        0 <= j < scores.len(),
        forall|k: int| 0 <= k < r ==> offers_less(scores[r], #[trigger] scores[k]),
        forall|k: int| r < k < scores.len() ==> !offers_less(#[trigger] scores[k], scores[r]),
    ensures
        !offers_less(scores[j], scores[r]),
{
    if j < r {
        assert(offers_less(scores[r], scores[j]));
    } else if j > r {
        assert(!offers_less(scores[j], scores[r]));
    }
}

} // verus!
