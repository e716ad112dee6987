use vstd::prelude::*;
use crate::indices::CellIndex;

verus! {

/// All possible neighbours of a cell (or parents of an edge) in a mesh
/// block.  `Absent` is the error/default state.
#[derive(Clone, Copy, Debug, PartialEq, Eq, Structural)]
pub enum Neighbor2D {
    Absent,
    Cell(CellIndex),
    Boundary(usize, usize),
}

impl Default for Neighbor2D {
    fn default() -> (r: Neighbor2D)
        ensures
            r == Neighbor2D::Absent,
    {
        Neighbor2D::Absent
    }
}

} // verus!
