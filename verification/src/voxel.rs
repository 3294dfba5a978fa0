//! The atomic cell of the voxel grid: a numeric block-type identifier.

use vstd::prelude::*;

verus! {

/// A single cell of the voxel grid, wrapping a numeric block-type identifier.
/// Identifier 0 means empty (air) and never generates faces; any nonzero
/// identifier is a solid block kind.
#[derive(Clone, Copy, Debug, PartialEq, Eq, Structural)]
pub struct Voxel {
    pub id: u32,
}

impl Voxel {
    /// Wraps a block-type identifier as a voxel value.
    pub fn new(id: u32) -> (r: Self)
        ensures
            r.id == id,
    {
        Self { id }
    }

    /// A voxel is solid exactly when its identifier is nonzero.
    pub open spec fn is_solid(self) -> bool {
        self.id != 0
    }

    /// Executable test matching `is_solid`.
    pub fn solid(&self) -> (r: bool)
        ensures
            r == self.is_solid(),
    {
        self.id != 0
    }
}

} // verus!
