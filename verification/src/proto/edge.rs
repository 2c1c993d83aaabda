//! Screen edges.

use vstd::prelude::*;

verus! {

/// Which screen edge a pointer crossed.
#[derive(Debug, Clone, Copy, PartialEq, Eq, Structural)]
pub enum Edge {
    Left,
    Right,
    Top,
    Bottom,
}

impl Edge {
    /// The edge across the screen from this one.
    pub open spec fn opposite_of(self) -> Edge {
        match self {
            Edge::Left => Edge::Right,
            Edge::Right => Edge::Left,
            Edge::Top => Edge::Bottom,
            Edge::Bottom => Edge::Top,
        }
    }

    /// Left and right edges are crossed by horizontal motion.
    pub open spec fn is_horizontal(self) -> bool {
        self == Edge::Left || self == Edge::Right
    }

    /// The edge a pointer arrives at, given the edge it departed from.
    pub fn opposite(self) -> (r: Self)
        ensures
            r == self.opposite_of(),
    {
        match self {
            Edge::Left => Edge::Right,
            Edge::Right => Edge::Left,
            Edge::Top => Edge::Bottom,
            Edge::Bottom => Edge::Top,
        }
    }

    /// Edges pair up: each has a partner on the same axis, never itself, whose
    /// partner it is.
    pub proof fn law_edges_pair_up(self)
        ensures
            self.opposite_of().opposite_of() == self,
            self.opposite_of() != self,
            self.opposite_of().is_horizontal() == self.is_horizontal(),
    {
    }
}

} // verus!
