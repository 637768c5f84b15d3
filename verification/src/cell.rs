//! Per-voxel state: a discrete type tag and a volume scalar.

use vstd::prelude::*;

verus! {

/// One voxel's state. `cell_type` 0 is fluid (or empty space); any other
/// value is a solid obstacle, which neither receives nor emits flow.
///
/// `volume` is a fixed-point quantity: [`crate::flow::UNIT`] units stand for
/// one full cell of fluid. Keeping the scalar an integer keeps every volume
/// non-negative and makes the flow arithmetic exact.
#[derive(Clone, Copy, Debug, PartialEq, Eq, Structural)]
pub struct Cell {
    pub cell_type: usize,
    pub volume: u64,
}

impl Cell {
    /// The default cell: fluid type, no volume.
    pub fn empty() -> (c: Cell)
        ensures
            c == (Cell { cell_type: 0usize, volume: 0u64 }),
    {
        Cell { cell_type: 0, volume: 0 }
    }
}

} // verus!
