//! Face extraction: derives from a chunk's voxel occupancy the list of
//! visible faces, culling every face shared by two solid voxels.

use vstd::prelude::*;

use vstd::arithmetic::div_mod::lemma_fundamental_div_mod;
use vstd::arithmetic::div_mod::lemma_fundamental_div_mod_converse;
use vstd::arithmetic::div_mod::lemma_mod_bound;
use crate::chunk::CHUNK_HEIGHT;
use crate::chunk::CHUNK_LENGTH;
use crate::chunk::CHUNK_WIDTH;
use crate::chunk::Chunk;
use crate::chunk::flat_index;
use crate::chunk::lemma_flat_index_injective;
use crate::chunk::lemma_flat_index_invertible;
use crate::chunk::valid_coords;
use crate::face::DIR_UP;
use crate::face::Face;
use crate::voxel::Voxel;

verus! {

/// Offset along x of the neighbor in direction `d`.
pub open spec fn dir_dx(d: int) -> int {
    if d == 3 {
        1
    } else if d == 4 {
        -1
    } else {
        0
    }
}

/// Offset along y of the neighbor in direction `d`.
pub open spec fn dir_dy(d: int) -> int {
    if d == 1 {
        1
    } else if d == 6 {
        -1
    } else {
        0
    }
}

/// Offset along z of the neighbor in direction `d`.
pub open spec fn dir_dz(d: int) -> int {
    if d == 2 {
        1
    } else if d == 5 {
        -1
    } else {
        0
    }
}

/// The cell at (x, y, z) is inside the chunk and holds a solid voxel.
pub open spec fn solid_at(s: Seq<Voxel>, x: int, y: int, z: int) -> bool {
    valid_coords(x, y, z) && s[flat_index(x, y, z)].is_solid()
}

/// The face of the voxel at (x, y, z) in direction `d` is visible: the
/// voxel is solid and its neighbor across that face is empty or lies
/// outside the chunk (the boundary is treated as empty).
pub open spec fn face_visible(s: Seq<Voxel>, x: int, y: int, z: int, d: int) -> bool {
    &&& 1 <= d <= 6
    &&& solid_at(s, x, y, z)
    &&& !solid_at(s, x + dir_dx(d), y + dir_dy(d), z + dir_dz(d))
}

/// The face descriptor for the voxel at (x, y, z) in direction `d`.
pub open spec fn face_at(x: int, y: int, z: int, d: int) -> Face {
    Face { x: x as u8, z: z as u8, y: y as u8, direction: d as u8 }
}

/// Emission order of the extractor: voxels in flattening order, directions
/// 1..=6 within a voxel.
pub open spec fn face_key(x: int, y: int, z: int, d: int) -> int {
    6 * flat_index(x, y, z) + (d - 1)
}

/// The emission key of a face descriptor.
pub open spec fn key_of(f: Face) -> int {
    face_key(f.x as int, f.y as int, f.z as int, f.direction as int)
}

/// Every face of the list describes a visible face of the grid.
pub open spec fn faces_sound(s: Seq<Voxel>, res: Seq<Face>) -> bool {
    forall|k: int|
        0 <= k < res.len() ==> face_visible(
            s,
            res[k].x as int,
            res[k].y as int,
            res[k].z as int,
            res[k].direction as int,
        )
}

/// Every visible face whose emission key is below `b` is in the list.
pub open spec fn faces_covered_below(s: Seq<Voxel>, res: Seq<Face>, b: int) -> bool {
    forall|x: int, y: int, z: int, d: int|
        #[trigger] face_visible(s, x, y, z, d) && face_key(x, y, z, d) < b ==> res.contains(
            face_at(x, y, z, d),
        )
}

/// Every emission key in the list is below `b`.
pub open spec fn keys_below(res: Seq<Face>, b: int) -> bool {
    forall|k: int| 0 <= k < res.len() ==> key_of(res[k]) < b
}

/// The list is strictly increasing in emission key, so it repeats no face.
pub open spec fn strictly_ordered(res: Seq<Face>) -> bool {
    forall|k1: int, k2: int|
        0 <= k1 < k2 < res.len() ==> key_of(res[k1]) < key_of(res[k2])
}

/// Extraction loop invariant: the list is sound, ordered, and holds exactly
/// the visible faces with emission key below `b`.
pub open spec fn extract_inv(s: Seq<Voxel>, res: Seq<Face>, b: int) -> bool {
    &&& faces_sound(s, res)
    &&& keys_below(res, b)
    &&& strictly_ordered(res)
    &&& faces_covered_below(s, res, b)
}

/// Distinct (coordinate, direction) tuples in range have distinct emission
/// keys.
proof fn lemma_face_key_injective(
    x1: int,
    y1: int,
    z1: int,
    d1: int,
    x2: int,
    y2: int,
    z2: int,
    d2: int,
)
    requires
        valid_coords(x1, y1, z1),
        1 <= d1 <= 6,
        valid_coords(x2, y2, z2),
        1 <= d2 <= 6,
        face_key(x1, y1, z1, d1) == face_key(x2, y2, z2, d2),
    ensures
        x1 == x2 && y1 == y2 && z1 == z2 && d1 == d2,
{
    lemma_flat_index_invertible(x1, y1, z1);
    lemma_flat_index_invertible(x2, y2, z2);
    lemma_fundamental_div_mod_converse(
        face_key(x1, y1, z1, d1),
        6,
        flat_index(x1, y1, z1),
        d1 - 1,
    );
    lemma_fundamental_div_mod_converse(
        face_key(x2, y2, z2, d2),
        6,
        flat_index(x2, y2, z2),
        d2 - 1,
    );
    lemma_flat_index_injective(x1, y1, z1, x2, y2, z2);
}

/// A face list keeps everything it contained after a push.
proof fn lemma_contains_after_push(res: Seq<Face>, f: Face, g: Face)
    requires
        res.contains(g),
    ensures
        res.push(f).contains(g),
{
    let k = res.lemma_contains_to_index(g);
    assert(res.push(f)[k] == g);
}

impl Chunk {
    /// The voxel's face in direction `d` opens onto an empty or
    /// out-of-bounds cell.
    fn neighbor_open(&self, x: usize, y: usize, z: usize, d: usize) -> (r: bool)
        requires
            self.wf(),
            valid_coords(x as int, y as int, z as int),
            1 <= d <= 6,
        ensures
            r == !solid_at(
                self@,
                x as int + dir_dx(d as int),
                y as int + dir_dy(d as int),
                z as int + dir_dz(d as int),
            ),
    {
        if d == 1 {
            if y + 1 < CHUNK_HEIGHT {
                !self.get(x, y + 1, z).solid()
            } else {
                true
            }
        } else if d == 6 {
            if y > 0 {
                !self.get(x, y - 1, z).solid()
            } else {
                true
            }
        } else if d == 2 {
            if z + 1 < CHUNK_LENGTH {
                !self.get(x, y, z + 1).solid()
            } else {
                true
            }
        } else if d == 5 {
            if z > 0 {
                !self.get(x, y, z - 1).solid()
            } else {
                true
            }
        } else if d == 3 {
            if x + 1 < CHUNK_WIDTH {
                !self.get(x + 1, y, z).solid()
            } else {
                true
            }
        } else {
            if x > 0 {
                !self.get(x - 1, y, z).solid()
            } else {
                true
            }
        }
    }

    /// Occupancy-aware face extraction: returns a list holding exactly the
    /// visible faces of the grid — for every solid voxel, one face per
    /// direction whose neighboring cell is empty or out of bounds — each
    /// exactly once. Faces between two solid voxels are never emitted.
    pub fn visible_faces(&self) -> (r: Vec<Face>)
        requires
            self.wf(),
        ensures
            faces_sound(self@, r@),
            forall|x: int, y: int, z: int, d: int|
                #[trigger] face_visible(self@, x, y, z, d) ==> r@.contains(face_at(x, y, z, d)),
            forall|k1: int, k2: int| 0 <= k1 < k2 < r@.len() ==> r@[k1] != r@[k2],
    {
        let ghost s = self@;
        let mut faces: Vec<Face> = Vec::new();
        let mut y: usize = 0;
        while y < CHUNK_HEIGHT
            invariant
                self.wf(),
                s == self@,
                y <= CHUNK_HEIGHT,
                extract_inv(s, faces@, face_key(0, y as int, 0, 1)),
            decreases CHUNK_HEIGHT - y,
        {
            let mut z: usize = 0;
            while z < CHUNK_LENGTH
                invariant
                    self.wf(),
                    s == self@,
                    y < CHUNK_HEIGHT,
                    z <= CHUNK_LENGTH,
                    extract_inv(s, faces@, face_key(0, y as int, z as int, 1)),
                decreases CHUNK_LENGTH - z,
            {
                let mut x: usize = 0;
                while x < CHUNK_WIDTH
                    invariant
                        self.wf(),
                        s == self@,
                        y < CHUNK_HEIGHT,
                        z < CHUNK_LENGTH,
                        x <= CHUNK_WIDTH,
                        extract_inv(s, faces@, face_key(x as int, y as int, z as int, 1)),
                    decreases CHUNK_WIDTH - x,
                {
                    if self.get(x, y, z).solid() {
                        let mut d: usize = 1;
                        while d <= 6
                            invariant
                                self.wf(),
                                s == self@,
                                y < CHUNK_HEIGHT,
                                z < CHUNK_LENGTH,
                                x < CHUNK_WIDTH,
                                1 <= d <= 7,
                                solid_at(s, x as int, y as int, z as int),
                                extract_inv(
                                    s,
                                    faces@,
                                    face_key(x as int, y as int, z as int, d as int),
                                ),
                            decreases 7 - d,
                        {
                            let ghost b = face_key(x as int, y as int, z as int, d as int);
                            if self.neighbor_open(x, y, z, d) {
                                let f = Face::new(x as u8, z as u8, y as u8, d as u8);
                                let ghost pre = faces@;
                                faces.push(f);
                                proof {
                                    assert(f == face_at(x as int, y as int, z as int, d as int));
                                    assert(key_of(f) == b);
                                    assert(face_visible(s, x as int, y as int, z as int, d as int));
                                    assert(faces@ == pre.push(f));
                                    assert forall|x2: int, y2: int, z2: int, d2: int|
                                        #[trigger] face_visible(s, x2, y2, z2, d2) && face_key(
                                            x2,
                                            y2,
                                            z2,
                                            d2,
                                        ) < b + 1 implies faces@.contains(
                                        face_at(x2, y2, z2, d2),
                                    ) by {
                                        if face_key(x2, y2, z2, d2) < b {
                                            lemma_contains_after_push(
                                                pre,
                                                f,
                                                face_at(x2, y2, z2, d2),
                                            );
                                        } else {
                                            lemma_face_key_injective(
                                                x2,
                                                y2,
                                                z2,
                                                d2,
                                                x as int,
                                                y as int,
                                                z as int,
                                                d as int,
                                            );
                                            assert(faces@[pre.len() as int] == f);
                                        }
                                    }
                                }
                            } else {
                                proof {
                                    assert forall|x2: int, y2: int, z2: int, d2: int|
                                        #[trigger] face_visible(s, x2, y2, z2, d2) && face_key(
                                            x2,
                                            y2,
                                            z2,
                                            d2,
                                        ) < b + 1 implies faces@.contains(
                                        face_at(x2, y2, z2, d2),
                                    ) by {
                                        if face_key(x2, y2, z2, d2) == b {
                                            lemma_face_key_injective(
                                                x2,
                                                y2,
                                                z2,
                                                d2,
                                                x as int,
                                                y as int,
                                                z as int,
                                                d as int,
                                            );
                                        }
                                    }
                                }
                            }
                            d = d + 1;
                        }
                    } else {
                        proof {
                            let b0 = face_key(x as int, y as int, z as int, 1);
                            assert forall|x2: int, y2: int, z2: int, d2: int|
                                #[trigger] face_visible(s, x2, y2, z2, d2) && face_key(
                                    x2,
                                    y2,
                                    z2,
                                    d2,
                                ) < b0 + 6 implies faces@.contains(face_at(x2, y2, z2, d2)) by {
                                if face_key(x2, y2, z2, d2) >= b0 {
                                    lemma_flat_index_invertible(x2, y2, z2);
                                    assert(flat_index(x2, y2, z2) == flat_index(
                                        x as int,
                                        y as int,
                                        z as int,
                                    ));
                                    lemma_flat_index_injective(
                                        x2,
                                        y2,
                                        z2,
                                        x as int,
                                        y as int,
                                        z as int,
                                    );
                                }
                            }
                        }
                    }
                    x = x + 1;
                }
                z = z + 1;
            }
            y = y + 1;
        }
        proof {
            assert forall|x2: int, y2: int, z2: int, d2: int|
                #[trigger] face_visible(s, x2, y2, z2, d2) implies faces@.contains(
                face_at(x2, y2, z2, d2),
            ) by {
                lemma_flat_index_invertible(x2, y2, z2);
            }
            assert forall|k1: int, k2: int| 0 <= k1 < k2 < faces@.len() implies faces@[k1]
                != faces@[k2] by {
                assert(key_of(faces@[k1]) < key_of(faces@[k2]));
            }
        }
        faces
    }

    /// The face the placeholder extractor emits at position `k`: one upward
    /// face per (x, z) column at the top layer, x varying fastest.
    pub open spec fn placeholder_face(k: int) -> Face {
        Face {
            x: (k % (CHUNK_WIDTH as int)) as u8,
            z: (k / (CHUNK_WIDTH as int)) as u8,
            y: (CHUNK_HEIGHT - 1) as u8,
            direction: DIR_UP,
        }
    }

    /// Placeholder face extraction, independent of occupancy: exactly one
    /// upward-facing face per (x, z) column at the topmost layer
    /// (`y = CHUNK_HEIGHT - 1`), `CHUNK_WIDTH * CHUNK_LENGTH` faces in all,
    /// x varying fastest within each z.
    pub fn get_faces() -> (r: Vec<Face>)
        ensures
            r@.len() == CHUNK_WIDTH * CHUNK_LENGTH,
            forall|k: int|
                0 <= k < CHUNK_WIDTH * CHUNK_LENGTH ==> #[trigger] r@[k] == Self::placeholder_face(
                    k,
                ),
    {
        let mut faces: Vec<Face> = Vec::new();
        let mut z: usize = 0;
        while z < CHUNK_LENGTH
            invariant
                z <= CHUNK_LENGTH,
                faces@.len() == z * CHUNK_WIDTH,
                forall|k: int| 0 <= k < faces@.len() ==> faces@[k] == Self::placeholder_face(k),
            decreases CHUNK_LENGTH - z,
        {
            let mut x: usize = 0;
            while x < CHUNK_WIDTH
                invariant
                    z < CHUNK_LENGTH,
                    x <= CHUNK_WIDTH,
                    faces@.len() == z * CHUNK_WIDTH + x,
                    forall|k: int| 0 <= k < faces@.len() ==> faces@[k] == Self::placeholder_face(k),
                decreases CHUNK_WIDTH - x,
            {
                let f = Face::new(x as u8, z as u8, (CHUNK_HEIGHT - 1) as u8, DIR_UP);
                faces.push(f);
                proof {
                    let k = z * CHUNK_WIDTH + x;
                    lemma_fundamental_div_mod_converse(k as int, 16, z as int, x as int);
                    assert(faces@[k as int] == Self::placeholder_face(k as int));
                }
                x = x + 1;
            }
            z = z + 1;
        }
        faces
    }
}

/// Distinct positions of the placeholder face list cover distinct (x, z)
/// columns: the top-layer sweep never repeats a column.
pub proof fn lemma_placeholder_faces_distinct_columns(k1: int, k2: int)
    requires
        0 <= k1 < CHUNK_WIDTH * CHUNK_LENGTH,
        0 <= k2 < CHUNK_WIDTH * CHUNK_LENGTH,
        k1 != k2,
    ensures
        Chunk::placeholder_face(k1).x != Chunk::placeholder_face(k2).x
            || Chunk::placeholder_face(k1).z != Chunk::placeholder_face(k2).z,
{
    lemma_fundamental_div_mod(k1, 16);
    lemma_fundamental_div_mod(k2, 16);
    lemma_mod_bound(k1, 16);
    lemma_mod_bound(k2, 16);
}

} // verus!
