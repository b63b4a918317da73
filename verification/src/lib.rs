//! The integer side of two-dimensional gradient noise: the permutation table
//! and the hashing of lattice corners.
//!
//! - [`table`] builds a [`table::PermutationTable`], a permutation of
//!   `0..SIZE` stored twice in a row.
//! - [`shuffle`] is the shuffle that scrambles the table.
//! - [`lattice`] hashes the four corners of a lattice cell to indices into a
//!   gradient table of `SIZE` entries.
//! - [`random`] states what is taken for granted about the random generator.

use vstd::prelude::*;

pub mod lattice;
pub mod random;
pub mod shuffle;
pub mod table;

verus! {

/// Number of lattice cells after which the noise pattern repeats.
pub const SIZE: usize = 256;

} // verus!
