//! Hashing of lattice corners through the permutation table.
//!
//! A point with integer part `(x, y)` lies in the lattice cell whose lower left
//! corner is `(x % SIZE, y % SIZE)`. Each of the cell's four corners is hashed
//! to an index into a gradient table of `SIZE` entries.

use vstd::prelude::*;
use crate::SIZE;
use crate::table::{is_permutation_table, lemma_entries_below_size, PermutationTable};

verus! {

/// The hash of the lattice corner `(cx, cy)`: a double lookup, which stays
/// inside the table for `0 <= cx <= SIZE` and `0 <= cy <= SIZE`.
pub open spec fn corner_hash(t: Seq<u32>, cx: int, cy: int) -> u32 {
    t[t[cx] as int + cy]
}

/// The hashes of the four corners of one lattice cell.
#[derive(Clone, Copy, Debug, PartialEq, Eq)]
pub struct CornerHashes {
    pub bot_left: u32,
    pub bot_right: u32,
    pub top_left: u32,
    pub top_right: u32,
}

/// The corner hashes of the cell that holds the points with integer part
/// `(x, y)`.
pub open spec fn cell_hashes(t: Seq<u32>, x: int, y: int) -> CornerHashes {
    let xp = x % (SIZE as int);
    let yp = y % (SIZE as int);
    CornerHashes {
        bot_left: corner_hash(t, xp, yp),
        bot_right: corner_hash(t, xp + 1, yp),
        top_left: corner_hash(t, xp, yp + 1),
        top_right: corner_hash(t, xp + 1, yp + 1),
    }
}

impl PermutationTable {
    /// Hashes the four corners of the cell that holds the points with integer
    /// part `(x, y)`. Each hash is a valid index into a table of `SIZE`
    /// gradients.
    pub fn corner_hashes(&self, x: usize, y: usize) -> (h: CornerHashes)
        ensures
            h == cell_hashes(self@, x as int, y as int),
            h.bot_left < SIZE,
            h.bot_right < SIZE,
            h.top_left < SIZE,
            h.top_right < SIZE,
    {
        let t = self.entries();
        let xp = x % SIZE;
        let yp = y % SIZE;
        proof {
            lemma_entries_below_size(t@, xp as int);
            lemma_entries_below_size(t@, xp + 1);
        }
        let left = t[xp] as usize;
        let right = t[xp + 1] as usize;
        proof {
            lemma_entries_below_size(t@, left + yp);
            lemma_entries_below_size(t@, right + yp);
            lemma_entries_below_size(t@, left + yp + 1);
            lemma_entries_below_size(t@, right + yp + 1);
        }
        CornerHashes {
            bot_left: t[left + yp],
            bot_right: t[right + yp],
            top_left: t[left + yp + 1],
            top_right: t[right + yp + 1],
        }
    }
}

/// A corner on the seam of the table hashes like the corner it wraps to: for
/// corner coordinates up to and including `SIZE`, the double lookup agrees
/// with the lookup at the coordinates reduced modulo `SIZE`, and yields a
/// value below `SIZE`.
pub proof fn lemma_corner_hash_wraps(t: Seq<u32>, cx: int, cy: int)
    requires
        is_permutation_table(t),
        0 <= cx <= SIZE,
        0 <= cy <= SIZE,
    ensures
        corner_hash(t, cx, cy) == corner_hash(t, cx % (SIZE as int), cy % (SIZE as int)),
        corner_hash(t, cx, cy) < SIZE,
{
    lemma_entries_below_size(t, cx);
    lemma_entries_below_size(t, t[cx] as int + cy);
}

/// The corner hashes repeat every `SIZE` cells along both axes.
pub proof fn lemma_cell_hashes_periodic(t: Seq<u32>, x: int, y: int)
    ensures
        cell_hashes(t, x + SIZE, y) == cell_hashes(t, x, y),
        cell_hashes(t, x, y + SIZE) == cell_hashes(t, x, y),
{
    assert((x + SIZE) % (SIZE as int) == x % (SIZE as int)) by (nonlinear_arith)
        requires
            SIZE == 256,
    ;
    assert((y + SIZE) % (SIZE as int) == y % (SIZE as int)) by (nonlinear_arith)
        requires
            SIZE == 256,
    ;
}

/// Neighbouring cells agree on the corners they share, also across the seam
/// where the cell coordinate wraps from `SIZE - 1` to `0`.
pub proof fn lemma_neighbours_share_corners(t: Seq<u32>, x: int, y: int)
    requires
        is_permutation_table(t),
        0 <= x,
        0 <= y,
    ensures
        cell_hashes(t, x, y).bot_right == cell_hashes(t, x + 1, y).bot_left,
        cell_hashes(t, x, y).top_right == cell_hashes(t, x + 1, y).top_left,
        cell_hashes(t, x, y).top_left == cell_hashes(t, x, y + 1).bot_left,
        cell_hashes(t, x, y).top_right == cell_hashes(t, x, y + 1).bot_right,
{
    let xp = x % (SIZE as int);
    let yp = y % (SIZE as int);
    lemma_corner_hash_wraps(t, xp + 1, yp);
    lemma_corner_hash_wraps(t, xp + 1, yp + 1);
    lemma_corner_hash_wraps(t, xp, yp + 1);
    assert((x + 1) % (SIZE as int) == (xp + 1) % (SIZE as int)) by (nonlinear_arith)
        requires
            SIZE == 256,
            xp == x % (SIZE as int),
    ;
    assert((y + 1) % (SIZE as int) == (yp + 1) % (SIZE as int)) by (nonlinear_arith)
        requires
            SIZE == 256,
            yp == y % (SIZE as int),
    ;
}

} // verus!
