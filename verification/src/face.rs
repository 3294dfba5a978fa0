//! A compact descriptor of one visible quad of a voxel.

use vstd::prelude::*;

verus! {

/// Number of vertices the renderer reconstructs per face.
pub const VERTICES_PER_FACE: usize = 4;

/// Number of triangle-corner indices emitted per face (two triangles).
pub const INDICES_PER_FACE: usize = 6;

/// Direction code for the upward (+y) orientation.
pub const DIR_UP: u8 = 1;

/// Direction code for the +z orientation.
pub const DIR_NORTH: u8 = 2;

/// Direction code for the +x orientation.
pub const DIR_EAST: u8 = 3;

/// Direction code for the -x orientation.
pub const DIR_WEST: u8 = 4;

/// Direction code for the -z orientation.
pub const DIR_SOUTH: u8 = 5;

/// Direction code for the downward (-y) orientation.
pub const DIR_DOWN: u8 = 6;

/// A single visible face of a voxel, to be expanded by the renderer into
/// 4 vertices / 2 triangles. The payload is exactly 4 bytes: three local
/// coordinates (`x` along the width, `z` along the length, `y` along the
/// height) followed by a direction code in 1..=6, numbered like the six
/// faces of a physical die (opposite directions sum to 7).
#[derive(Clone, Copy, Debug, PartialEq, Eq, Structural)]
pub struct Face {
    pub x: u8,
    pub z: u8,
    pub y: u8,
    pub direction: u8,
}

impl Face {
    /// Builds a face descriptor from its coordinates and direction code.
    pub fn new(x: u8, z: u8, y: u8, direction: u8) -> (r: Self)
        ensures
            r == (Face { x, z, y, direction }),
    {
        Face { x, z, y, direction }
    }
}

} // verus!
