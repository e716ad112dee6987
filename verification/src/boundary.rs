use vstd::prelude::*;

verus! {

/// Physical kind of a boundary condition.  `Absent` is the error/default state.
#[derive(Clone, Copy, Debug, PartialEq, Eq, Structural)]
pub enum Boundary {
    Absent,
    NoSlip,
    Slip,
}

impl Default for Boundary {
    fn default() -> (r: Boundary)
        ensures
            r == Boundary::Absent,
    {
        Boundary::Absent
    }
}

} // verus!
