//! Dense, fixed-size 3D voxel storage with a deterministic flattening of
//! 3D coordinates to a 1D index.
//!
//! Axes: `x` runs along the width, `z` along the length, `y` along the
//! height. The flattening order is x-fastest, then z, then y:
//! `index(x, y, z) = x + WIDTH * (z + LENGTH * y)`.

use vstd::prelude::*;

use vstd::arithmetic::div_mod::lemma_fundamental_div_mod;
use vstd::arithmetic::div_mod::lemma_fundamental_div_mod_converse;
use vstd::arithmetic::div_mod::lemma_mod_bound;
use crate::voxel::Voxel;

verus! {

/// Chunk extent along the x axis.
pub const CHUNK_WIDTH: usize = 16;

/// Chunk extent along the z axis.
pub const CHUNK_LENGTH: usize = 16;

/// Chunk extent along the y axis.
pub const CHUNK_HEIGHT: usize = 32;

/// Total number of voxels in a chunk.
pub const CHUNK_VOLUME: usize = 16 * 16 * 32;

/// The coordinate triple lies inside the chunk.
pub open spec fn valid_coords(x: int, y: int, z: int) -> bool {
    &&& 0 <= x < CHUNK_WIDTH
    &&& 0 <= y < CHUNK_HEIGHT
    &&& 0 <= z < CHUNK_LENGTH
}

/// The x-fastest flattening of a coordinate triple to a 1D index.
pub open spec fn flat_index(x: int, y: int, z: int) -> int {
    x + CHUNK_WIDTH * (z + CHUNK_LENGTH * y)
}

/// The x coordinate encoded in a flattened index.
pub open spec fn x_of(i: int) -> int {
    i % (CHUNK_WIDTH as int)
}

/// The z coordinate encoded in a flattened index.
pub open spec fn z_of(i: int) -> int {
    (i / (CHUNK_WIDTH as int)) % (CHUNK_LENGTH as int)
}

/// The y coordinate encoded in a flattened index.
pub open spec fn y_of(i: int) -> int {
    i / (CHUNK_WIDTH as int * CHUNK_LENGTH as int)
}

/// Error raised by the bounds-checked accessors.
#[derive(Clone, Copy, Debug, PartialEq, Eq, Structural)]
pub enum ChunkError {
    /// A coordinate fell outside `[0, dimension)` on some axis.
    IndexOutOfRange,
}

/// A fixed-size 3D grid of voxels, stored as one dense array in
/// flattening order.
pub struct Chunk {
    blocks: Vec<Voxel>,
}

impl View for Chunk {
    type V = Seq<Voxel>;

    closed spec fn view(&self) -> Seq<Voxel> {
        self.blocks@
    }
}

impl Chunk {
    /// The stored array covers exactly the chunk volume.
    pub open spec fn wf(&self) -> bool {
        self@.len() == CHUNK_VOLUME
    }

    /// Flattens in-bounds coordinates to their unique index in
    /// `[0, CHUNK_VOLUME)`; never overflows for the fixed dimensions.
    pub fn index(x: usize, y: usize, z: usize) -> (r: usize)
        requires
            valid_coords(x as int, y as int, z as int),
        ensures
            r == flat_index(x as int, y as int, z as int),
            r < CHUNK_VOLUME,
    {
        x + CHUNK_WIDTH * (z + CHUNK_LENGTH * y)
    }

    /// Returns the voxel at in-bounds local coordinates.
    pub fn get(&self, x: usize, y: usize, z: usize) -> (r: Voxel)
        requires
            self.wf(),
            valid_coords(x as int, y as int, z as int),
        ensures
            r == self@[flat_index(x as int, y as int, z as int)],
    {
        self.blocks[Self::index(x, y, z)]
    }

    /// Overwrites the voxel at in-bounds local coordinates in place. Every
    /// other cell keeps its value. Any face or index list derived from the
    /// grid before the call is stale afterwards and must be regenerated.
    pub fn set(&mut self, block: Voxel, x: usize, y: usize, z: usize)
        requires
            old(self).wf(),
            valid_coords(x as int, y as int, z as int),
        ensures
            final(self).wf(),
            final(self)@ == old(self)@.update(flat_index(x as int, y as int, z as int), block),
    {
        let i = Self::index(x, y, z);
        self.blocks[i] = block;
    }

    /// Bounds-checked read: returns the voxel exactly when all three
    /// coordinates are in range, and `IndexOutOfRange` otherwise.
    pub fn try_get(&self, x: usize, y: usize, z: usize) -> (r: Result<Voxel, ChunkError>)
        requires
            self.wf(),
        ensures
            valid_coords(x as int, y as int, z as int)
                ==> r == Ok::<Voxel, ChunkError>(self@[flat_index(x as int, y as int, z as int)]),
            !valid_coords(x as int, y as int, z as int)
                ==> r == Err::<Voxel, ChunkError>(ChunkError::IndexOutOfRange),
    {
        if x < CHUNK_WIDTH && y < CHUNK_HEIGHT && z < CHUNK_LENGTH {
            Ok(self.get(x, y, z))
        } else {
            Err(ChunkError::IndexOutOfRange)
        }
    }

    /// Bounds-checked write: updates the voxel exactly when all three
    /// coordinates are in range, and otherwise returns `IndexOutOfRange`
    /// leaving the grid unchanged.
    pub fn try_set(&mut self, block: Voxel, x: usize, y: usize, z: usize) -> (r: Result<
        (),
        ChunkError,
    >)
        requires
            old(self).wf(),
        ensures
            final(self).wf(),
            valid_coords(x as int, y as int, z as int) ==> {
                &&& r == Ok::<(), ChunkError>(())
                &&& final(self)@ == old(self)@.update(
                    flat_index(x as int, y as int, z as int),
                    block,
                )
            },
            !valid_coords(x as int, y as int, z as int) ==> {
                &&& r == Err::<(), ChunkError>(ChunkError::IndexOutOfRange)
                &&& final(self)@ == old(self)@
            },
    {
        if x < CHUNK_WIDTH && y < CHUNK_HEIGHT && z < CHUNK_LENGTH {
            self.set(block, x, y, z);
            Ok(())
        } else {
            Err(ChunkError::IndexOutOfRange)
        }
    }

    /// The all-empty construction variant: every cell holds identifier 0.
    pub fn default() -> (r: Self)
        ensures
            r.wf(),
            forall|i: int| 0 <= i < CHUNK_VOLUME ==> (#[trigger] r@[i]).id == 0,
    {
        let mut blocks: Vec<Voxel> = Vec::new();
        let mut k: usize = 0;
        while k < CHUNK_VOLUME
            invariant
                k <= CHUNK_VOLUME,
                blocks@.len() == k,
                forall|i: int| 0 <= i < k ==> blocks@[i].id == 0,
            decreases CHUNK_VOLUME - k,
        {
            blocks.push(Voxel::new(0));
            k = k + 1;
        }
        Chunk { blocks }
    }

    /// The identifier the half-full variant assigns to flattened index `i`:
    /// solid (1) on the lower half of the index space, empty (0) above it.
    pub open spec fn half_full_id(i: int) -> u32 {
        if i < CHUNK_VOLUME / 2 {
            1
        } else {
            0
        }
    }

    /// The deterministic "half full" construction variant: the first
    /// `CHUNK_VOLUME / 2` flattened indices hold a solid block and the rest
    /// are empty. A pure function of the fixed dimensions — repeated
    /// construction yields identical chunks.
    pub fn half_full() -> (r: Self)
        ensures
            r.wf(),
            forall|i: int| 0 <= i < CHUNK_VOLUME ==> (#[trigger] r@[i]).id == Self::half_full_id(i),
            forall|i: int|
                0 <= i < CHUNK_VOLUME ==> ((#[trigger] r@[i]).is_solid() <==> i < CHUNK_VOLUME
                    / 2),
    {
        let mut blocks: Vec<Voxel> = Vec::new();
        let mut k: usize = 0;
        while k < CHUNK_VOLUME
            invariant
                k <= CHUNK_VOLUME,
                blocks@.len() == k,
                forall|i: int| 0 <= i < k ==> blocks@[i].id == Self::half_full_id(i),
            decreases CHUNK_VOLUME - k,
        {
            if k < CHUNK_VOLUME / 2 {
                blocks.push(Voxel::new(1));
            } else {
                blocks.push(Voxel::new(0));
            }
            k = k + 1;
        }
        proof {
            assert forall|i: int| 0 <= i < CHUNK_VOLUME implies (blocks@[i].is_solid() <==> i
                < CHUNK_VOLUME / 2) by {
                assert(blocks@[i].id == Self::half_full_id(i));
            }
        }
        Chunk { blocks }
    }
}

/// The number of solid voxels among the first `n` cells of a grid.
pub open spec fn solid_count_below(s: Seq<Voxel>, n: int) -> int
    decreases n,
{
    if n <= 0 {
        0
    } else {
        solid_count_below(s, n - 1) + if s[n - 1].is_solid() {
            1int
        } else {
            0int
        }
    }
}

/// Counting helper: in a grid whose solid cells are exactly those with
/// flattened index below `m`, the first `n` cells hold `min(n, m)` solid
/// voxels.
proof fn lemma_count_threshold(s: Seq<Voxel>, m: int, n: int)
    requires
        0 <= m,
        0 <= n <= s.len(),
        forall|i: int| 0 <= i < s.len() ==> ((#[trigger] s[i]).is_solid() <==> i < m),
    ensures
        solid_count_below(s, n) == if n <= m {
            n
        } else {
            m
        },
    decreases n,
{
    if n > 0 {
        lemma_count_threshold(s, m, n - 1);
    }
}

/// The half-full variant holds exactly `CHUNK_VOLUME / 2` solid voxels,
/// all at the lowest flattened indices.
pub proof fn lemma_half_full_solid_count(s: Seq<Voxel>)
    requires
        s.len() == CHUNK_VOLUME,
        forall|i: int|
            0 <= i < CHUNK_VOLUME ==> ((#[trigger] s[i]).is_solid() <==> i < CHUNK_VOLUME / 2),
    ensures
        solid_count_below(s, CHUNK_VOLUME as int) == CHUNK_VOLUME / 2,
{
    lemma_count_threshold(s, CHUNK_VOLUME as int / 2, CHUNK_VOLUME as int);
}

/// Half-fill generation is deterministic: any two grids that satisfy the
/// half-full variant's contract are identical, cell for cell.
pub proof fn lemma_half_full_deterministic(s1: Seq<Voxel>, s2: Seq<Voxel>)
    requires
        s1.len() == CHUNK_VOLUME,
        s2.len() == CHUNK_VOLUME,
        forall|i: int| 0 <= i < CHUNK_VOLUME ==> (#[trigger] s1[i]).id == Chunk::half_full_id(i),
        forall|i: int| 0 <= i < CHUNK_VOLUME ==> (#[trigger] s2[i]).id == Chunk::half_full_id(i),
    ensures
        s1 == s2,
{
    assert forall|i: int| 0 <= i < CHUNK_VOLUME implies s1[i] == s2[i] by {
        assert(s1[i].id == s2[i].id);
    }
    assert(s1 =~= s2);
}

/// The flattened index of in-bounds coordinates lies in `[0, CHUNK_VOLUME)`,
/// and the coordinates can be recovered from it: the flattening is injective.
pub proof fn lemma_flat_index_invertible(x: int, y: int, z: int)
    requires
        valid_coords(x, y, z),
    ensures
        0 <= flat_index(x, y, z) < CHUNK_VOLUME,
        x_of(flat_index(x, y, z)) == x,
        y_of(flat_index(x, y, z)) == y,
        z_of(flat_index(x, y, z)) == z,
{
    let i = flat_index(x, y, z);
    assert(i == (z + 16 * y) * 16 + x);
    lemma_fundamental_div_mod_converse(i, 16, z + 16 * y, x);
    assert(z + 16 * y == y * 16 + z);
    lemma_fundamental_div_mod_converse(z + 16 * y, 16, y, z);
    assert(i == y * 256 + (x + 16 * z));
    lemma_fundamental_div_mod_converse(i, 256, y, x + 16 * z);
}

/// Every index in `[0, CHUNK_VOLUME)` is hit by some in-bounds coordinate
/// triple: the flattening is onto that range. Together with
/// `lemma_flat_index_invertible` this makes it a bijection.
pub proof fn lemma_flat_index_surjective(i: int)
    requires
        0 <= i < CHUNK_VOLUME,
    ensures
        valid_coords(x_of(i), y_of(i), z_of(i)),
        flat_index(x_of(i), y_of(i), z_of(i)) == i,
{
    lemma_mod_bound(i, 16);
    lemma_mod_bound(i / 16, 16);
    lemma_fundamental_div_mod(i, 16);
    lemma_fundamental_div_mod(i / 16, 16);
    assert(0 <= i / 16 < 512) by {
        lemma_fundamental_div_mod_converse(i, 16, i / 16, i % 16);
    }
    assert(i / 256 == (i / 16) / 16) by {
        lemma_fundamental_div_mod(i / 16, 16);
        lemma_mod_bound(i / 16, 16);
        lemma_mod_bound(i, 16);
        assert(i == ((i / 16) / 16) * 256 + (((i / 16) % 16) * 16 + i % 16));
        lemma_fundamental_div_mod_converse(
            i,
            256,
            (i / 16) / 16,
            ((i / 16) % 16) * 16 + i % 16,
        );
    }
}

/// Distinct in-bounds coordinate triples flatten to distinct indices.
pub proof fn lemma_flat_index_injective(
    x1: int,
    y1: int,
    z1: int,
    x2: int,
    y2: int,
    z2: int,
)
    requires
        valid_coords(x1, y1, z1),
        valid_coords(x2, y2, z2),
        flat_index(x1, y1, z1) == flat_index(x2, y2, z2),
    ensures
        x1 == x2 && y1 == y2 && z1 == z2,
{
    lemma_flat_index_invertible(x1, y1, z1);
    lemma_flat_index_invertible(x2, y2, z2);
}

/// Writing a voxel then reading it back returns the written value, and no
/// other in-bounds coordinate's value changes.
pub proof fn lemma_set_get_round_trip(
    s: Seq<Voxel>,
    v: Voxel,
    x: int,
    y: int,
    z: int,
    x2: int,
    y2: int,
    z2: int,
)
    requires
        s.len() == CHUNK_VOLUME,
        valid_coords(x, y, z),
        valid_coords(x2, y2, z2),
    ensures
        s.update(flat_index(x, y, z), v)[flat_index(x, y, z)] == v,
        !(x == x2 && y == y2 && z == z2) ==> s.update(flat_index(x, y, z), v)[flat_index(
            x2,
            y2,
            z2,
        )] == s[flat_index(x2, y2, z2)],
{
    lemma_flat_index_invertible(x, y, z);
    lemma_flat_index_invertible(x2, y2, z2);
}

} // verus!
