//! The world: a fixed, fully populated 2D grid of chunks covering the
//! playable area.

use vstd::prelude::*;

use crate::chunk::CHUNK_LENGTH;
use crate::chunk::CHUNK_VOLUME;
use crate::chunk::CHUNK_WIDTH;
use crate::chunk::Chunk;

verus! {

/// World extent in chunks along the x axis.
pub const WORLD_WIDTH: usize = 16;

/// World extent in chunks along the z axis.
pub const WORLD_LENGTH: usize = 16;

/// Total number of chunks in the world.
pub const WORLD_CHUNKS: usize = 16 * 16;

/// The chunk-grid coordinate pair lies inside the world.
pub open spec fn valid_chunk_coords(x: int, z: int) -> bool {
    0 <= x < WORLD_WIDTH && 0 <= z < WORLD_LENGTH
}

/// The x-fastest flattening of a chunk-grid coordinate pair.
pub open spec fn chunk_flat_index(x: int, z: int) -> int {
    x + WORLD_WIDTH * z
}

/// A rectangular, fully populated grid of chunks; no chunk is ever missing,
/// unloaded, or resized.
pub struct World {
    chunks: Vec<Chunk>,
}

impl View for World {
    type V = Seq<Chunk>;

    closed spec fn view(&self) -> Seq<Chunk> {
        self.chunks@
    }
}

impl World {
    /// The chunk grid covers the whole world and every chunk is well formed.
    pub open spec fn wf(&self) -> bool {
        &&& self@.len() == WORLD_CHUNKS
        &&& forall|c: int| 0 <= c < WORLD_CHUNKS ==> self@[c].wf()
    }

    /// Constructs the complete world: every chunk present and initialized
    /// to the all-empty variant.
    pub fn default() -> (r: Self)
        ensures
            r.wf(),
            forall|c: int, i: int|
                0 <= c < WORLD_CHUNKS && 0 <= i < CHUNK_VOLUME ==> (#[trigger] r@[c]@[i]).id == 0,
    {
        let mut chunks: Vec<Chunk> = Vec::new();
        let mut k: usize = 0;
        while k < WORLD_CHUNKS
            invariant
                k <= WORLD_CHUNKS,
                chunks@.len() == k,
                forall|c: int| 0 <= c < k ==> chunks@[c].wf(),
                forall|c: int, i: int|
                    0 <= c < k && 0 <= i < CHUNK_VOLUME ==> chunks@[c]@[i].id == 0,
            decreases WORLD_CHUNKS - k,
        {
            chunks.push(Chunk::default());
            k = k + 1;
        }
        World { chunks }
    }

    /// Flattens in-bounds chunk-grid coordinates to their index in the
    /// chunk array.
    pub fn chunk_index(x: usize, z: usize) -> (r: usize)
        requires
            valid_chunk_coords(x as int, z as int),
        ensures
            r == chunk_flat_index(x as int, z as int),
            r < WORLD_CHUNKS,
    {
        x + WORLD_WIDTH * z
    }

    /// Read access to the chunk at in-bounds grid coordinates.
    pub fn chunk(&self, x: usize, z: usize) -> (r: &Chunk)
        requires
            self.wf(),
            valid_chunk_coords(x as int, z as int),
        ensures
            *r == self@[chunk_flat_index(x as int, z as int)],
            r.wf(),
    {
        &self.chunks[Self::chunk_index(x, z)]
    }

    /// The world-space origin of the chunk at grid coordinates (x, z):
    /// its grid coordinates scaled by the chunk dimensions.
    pub fn chunk_origin(x: usize, z: usize) -> (r: (usize, usize))
        requires
            valid_chunk_coords(x as int, z as int),
        ensures
            r.0 == x * CHUNK_WIDTH,
            r.1 == z * CHUNK_LENGTH,
    {
        (x * CHUNK_WIDTH, z * CHUNK_LENGTH)
    }
}

} // verus!
