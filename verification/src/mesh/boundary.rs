use vstd::prelude::*;
use crate::indices::{BoundaryConditionIndex, EdgeIndex};

verus! {

/// A boundary of a mesh block: a closed edge list, each edge tagged with
/// the boundary condition it belongs to.
#[derive(Clone, Debug, Default, PartialEq)]
pub struct Boundary2D {
    pub edges_idx: Vec<EdgeIndex>,
    pub boundary_condition_idx: Vec<BoundaryConditionIndex>,
}

impl Boundary2D {
    /// Creates a boundary from its edge and boundary-condition indices.
    pub fn new(
        edges_idx: Vec<EdgeIndex>,
        boundary_condition_idx: Vec<BoundaryConditionIndex>,
    ) -> (r: Boundary2D)
        ensures
            r.edges_idx@ == edges_idx@,
            r.boundary_condition_idx@ == boundary_condition_idx@,
    {
        Boundary2D { edges_idx, boundary_condition_idx }
    }

    /// The indices of the edges contained in this boundary.
    pub fn edges_idx(&self) -> (r: &Vec<EdgeIndex>)
        ensures
            r@ == self.edges_idx@,
    {
        &self.edges_idx
    }

    /// The boundary-condition index of each edge of this boundary.
    pub fn boundary_condition_idx(&self) -> (r: &Vec<BoundaryConditionIndex>)
        ensures
            r@ == self.boundary_condition_idx@,
    {
        &self.boundary_condition_idx
    }
}

} // verus!
