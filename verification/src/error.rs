use vstd::prelude::*;
use crate::indices::{CellIndex, EdgeIndex, NodeIndex};

verus! {

/// Errors of the mesh-block surface: an index reached past its array.
#[derive(Clone, Copy, Debug, PartialEq, Eq, Structural)]
pub enum Error {
    CellOutOfBound { index: CellIndex, length: usize },
    EdgeOutOfBound { index: EdgeIndex, length: usize },
    NodeOutOfBound { index: NodeIndex, length: usize },
}

} // verus!
