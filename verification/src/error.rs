//! The failures that the walk can report.

use vstd::prelude::*;

verus! {

/// Why a run was refused. A refused run has changed nothing.
#[derive(Debug, Clone, Copy, PartialEq, Eq, Structural)]
pub enum WalkError {
    /// A value that should have been a half-byte was larger than 15; it is
    /// carried along.
    InvalidNibble(u8),
    /// The grid has no rows or no columns, so there is no cell to start on.
    DegenerateGrid,
}

} // verus!
