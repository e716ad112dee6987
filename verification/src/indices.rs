use vstd::prelude::*;

verus! {

/// Index of a node in a mesh block.
#[derive(Clone, Copy, Debug, Default, PartialEq, Eq, Structural)]
pub struct NodeIndex(pub usize);

/// Index of an edge in a mesh block.
#[derive(Clone, Copy, Debug, Default, PartialEq, Eq, Structural)]
pub struct EdgeIndex(pub usize);

/// Index of a cell in a mesh block.
#[derive(Clone, Copy, Debug, Default, PartialEq, Eq, Structural)]
pub struct CellIndex(pub usize);

/// Index of a boundary condition in a mesh block.
#[derive(Clone, Copy, Debug, Default, PartialEq, Eq, Structural)]
pub struct BoundaryConditionIndex(pub usize);

} // verus!
