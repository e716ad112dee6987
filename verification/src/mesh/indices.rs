use vstd::prelude::*;

verus! {

/// Index of a parent (cell or boundary) of a half-edge.
#[derive(Clone, Copy, Debug, Default, PartialEq, Eq, Structural)]
pub struct ParentIndex(pub usize);

/// Index of a half-edge.
#[derive(Clone, Copy, Debug, Default, PartialEq, Eq, Structural)]
pub struct HalfEdgeIndex(pub usize);

/// Index of a vertex.
#[derive(Clone, Copy, Debug, Default, PartialEq, Eq, Structural)]
pub struct VertexIndex(pub usize);

/// Index of a face of the computational mesh.
#[derive(Clone, Copy, Debug, Default, PartialEq, Eq, Structural)]
pub struct FaceIndex(pub usize);

/// Index of a cell of the computational mesh.
#[derive(Clone, Copy, Debug, Default, PartialEq, Eq, Structural)]
pub struct CellIndex(pub usize);

/// Index of a boundary patch label.
#[derive(Clone, Copy, Debug, Default, PartialEq, Eq, Structural)]
pub struct BoundaryPatchIndex(pub usize);

} // verus!
