use vstd::prelude::*;
use crate::mesh::indices::{HalfEdgeIndex, ParentIndex, VertexIndex};
use crate::scalar::Scalar;

verus! {

/// Typed errors of the half-edge mesh: out-of-bound indices, integrity
/// violations found by `check_mesh`, range violations, and illegal
/// topology edits.
#[derive(Clone, Copy, Debug, PartialEq, Eq, Structural)]
pub enum MeshError {
    /// Fallback state; never produced by this crate's functions.
    Unspecified,
    /// A scalar parameter fell outside its declared open range.
    WrongFloatValue { got: Scalar, expected_min: Scalar, expected_max: Scalar },
    HalfEdgeIndexOutOfBound { got: HalfEdgeIndex, len: usize },
    VertexIndexOutOfBound { got: VertexIndex, len: usize },
    ParentIndexOutOfBound { got: ParentIndex, len: usize },
    /// `twin(twin(he))` is not `he`.
    TwinNotCorrect { he: HalfEdgeIndex, he_twin: HalfEdgeIndex, he_twin_twin: HalfEdgeIndex },
    /// A half-edge reached from a parent cycle does not name that parent.
    ParentNotCorrect { parent: ParentIndex, he: HalfEdgeIndex, he_parent: ParentIndex },
    /// The cycle through `next` does not close on its starting half-edge.
    WrongHalfEdgeLoop { he: HalfEdgeIndex },
    /// `prev(next(he))` is not `he`.
    NextPrevNotCorrect { he: HalfEdgeIndex, he_next: HalfEdgeIndex, he_next_prev: HalfEdgeIndex },
    /// The requested edge already exists.
    AlreadyExists,
    /// A trimming endpoint is not on the given parent's cycle.
    ParentDoesNotContainVertex { vertex: VertexIndex, parent: ParentIndex },
    /// Inconsistent input to a constructor or to `swap_edge`.
    WrongMeshInitialisation,
    /// Swapping the shared edge would create a degenerate (zero-area) triangle.
    AllignedEdges { parent_0: ParentIndex, parent_1: ParentIndex },
    /// The neighbour side of an edge cannot host a new element.
    NoElementCreatable(HalfEdgeIndex),
    /// A bounded search exceeded its iteration cap.
    MaxIterationReached { max_it: usize },
}

impl Default for MeshError {
    fn default() -> (r: MeshError)
        ensures
            r == MeshError::Unspecified,
    {
        MeshError::Unspecified
    }
}

} // verus!
