//! Triangle index generation: expands a face count into the index sequence
//! that draws each face as two triangles over a shared block of 4 vertices.

use vstd::prelude::*;

use vstd::arithmetic::div_mod::lemma_fundamental_div_mod;
use vstd::arithmetic::div_mod::lemma_fundamental_div_mod_converse;
use vstd::arithmetic::div_mod::lemma_mod_bound;
use crate::chunk::Chunk;

verus! {

/// The within-face index pattern `[0, 1, 2, 2, 3, 0]`: the standard
/// two-triangle decomposition of a quad, both triangles sharing the
/// diagonal from vertex 0 to vertex 2.
pub open spec fn quad_pattern(k: int) -> int {
    if k == 0 {
        0
    } else if k == 1 {
        1
    } else if k == 2 {
        2
    } else if k == 3 {
        2
    } else if k == 4 {
        3
    } else {
        0
    }
}

/// The value at position `j` of the index sequence: face `j / 6` contributes
/// vertex block offset `4 * (j / 6)` plus the within-face pattern.
pub open spec fn index_value(j: int) -> int {
    4 * (j / 6) + quad_pattern(j % 6)
}

impl Chunk {
    /// Builds the triangle index sequence for `size` faces: exactly
    /// `size * 6` indices, where face `i` contributes
    /// `[4i, 4i+1, 4i+2, 4i+2, 4i+3, 4i]`.
    pub fn get_indeces(size: usize) -> (r: Vec<usize>)
        requires
            size <= usize::MAX / 6,
        ensures
            r@.len() == size * 6,
            forall|j: int| 0 <= j < size * 6 ==> #[trigger] r@[j] == index_value(j),
    {
        let mut indeces: Vec<usize> = Vec::new();
        let mut i: usize = 0;
        while i < size
            invariant
                i <= size,
                size <= usize::MAX / 6,
                indeces@.len() == i * 6,
                forall|j: int| 0 <= j < i * 6 ==> indeces@[j] == index_value(j),
            decreases size - i,
        {
            let offset = i * 4;
            indeces.push(offset);
            indeces.push(offset + 1);
            indeces.push(offset + 2);
            indeces.push(offset + 2);
            indeces.push(offset + 3);
            indeces.push(offset);
            proof {
                assert forall|j: int| 0 <= j < (i + 1) * 6 implies indeces@[j] == index_value(j) by {
                    if j >= i * 6 {
                        lemma_fundamental_div_mod_converse(j, 6, i as int, j - i * 6);
                    }
                }
            }
            i = i + 1;
        }
        indeces
    }
}

/// Every value of the index sequence for `n` faces addresses one of the
/// `4 * n` shared vertices: no index exceeds `4 * n - 1`.
pub proof fn lemma_index_value_in_range(j: int, n: int)
    requires
        0 <= j < 6 * n,
    ensures
        0 <= index_value(j) <= 4 * n - 1,
{
    lemma_fundamental_div_mod(j, 6);
    lemma_mod_bound(j, 6);
}

/// Each generated triangle is non-degenerate: the three indices of triangle
/// `t` (corners at positions `3t`, `3t + 1`, `3t + 2` of the index sequence)
/// are pairwise distinct.
pub proof fn lemma_triangle_indices_distinct(t: int)
    requires
        t >= 0,
    ensures
        index_value(3 * t) != index_value(3 * t + 1),
        index_value(3 * t + 1) != index_value(3 * t + 2),
        index_value(3 * t) != index_value(3 * t + 2),
{
    lemma_fundamental_div_mod(t, 2);
    lemma_mod_bound(t, 2);
    let m = t / 2;
    if t % 2 == 0 {
        lemma_fundamental_div_mod_converse(3 * t, 6, m, 0);
        lemma_fundamental_div_mod_converse(3 * t + 1, 6, m, 1);
        lemma_fundamental_div_mod_converse(3 * t + 2, 6, m, 2);
    } else {
        lemma_fundamental_div_mod_converse(3 * t, 6, m, 3);
        lemma_fundamental_div_mod_converse(3 * t + 1, 6, m, 4);
        lemma_fundamental_div_mod_converse(3 * t + 2, 6, m, 5);
    }
}

} // verus!
