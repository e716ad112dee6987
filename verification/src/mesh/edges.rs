use vstd::prelude::*;
use crate::indices::NodeIndex;
use crate::mesh::neighbor::Neighbor2D;

verus! {

/// An edge of a mesh block: two node indices and the neighbour (cell or
/// boundary) on each side.  Going from the first node to the second, the
/// first neighbour is on the right.
#[derive(Clone, Copy, Debug, PartialEq)]
pub struct Edge2D {
    pub nodes_idx: (NodeIndex, NodeIndex),
    pub neighbors: (Neighbor2D, Neighbor2D),
}

impl Edge2D {
    /// Creates a new edge from its node indices and neighbours.
    pub fn new(nodes_idx: (NodeIndex, NodeIndex), neighbors: (Neighbor2D, Neighbor2D)) -> (r:
        Edge2D)
        ensures
            r.nodes_idx == nodes_idx,
            r.neighbors == neighbors,
    {
        Edge2D { nodes_idx, neighbors }
    }

    /// The node indices of the edge.
    pub fn nodes_idx(&self) -> (r: (NodeIndex, NodeIndex))
        ensures
            r == self.nodes_idx,
    {
        self.nodes_idx
    }
}

} // verus!
