//! The permutation table: a permutation of `0..SIZE` stored twice in a row, so
//! that a lookup at `table[a] + b` with `b <= SIZE` needs no wrap-around.

use vstd::prelude::*;
use vstd::seq_lib::*;
use rand::rngs::ThreadRng;
use crate::shuffle::{complete_draws, lemma_shuffled_permutes, shuffle, shuffled};
use crate::SIZE;

verus! {

/// Number of entries of a permutation table.
pub const TABLE_LEN: usize = 2 * SIZE;

/// `s` holds every value of `0..SIZE` exactly once, and nothing else.
pub open spec fn is_permutation(s: Seq<u32>) -> bool {
    &&& s.len() == SIZE
    &&& forall|v: u32| #[trigger]
        s.to_multiset().count(v) == (if v < SIZE {
            1nat
        } else {
            0nat
        })
}

/// `t` is a permutation of `0..SIZE` followed by a copy of itself.
pub open spec fn is_permutation_table(t: Seq<u32>) -> bool {
    &&& t.len() == TABLE_LEN
    &&& is_permutation(t.subrange(0, SIZE as int))
    &&& forall|i: int, j: int|
        #![trigger t[i], t[j]]
        0 <= i < SIZE && j == i + SIZE ==> t[i] == t[j]
}

/// The sequence `0, 1, ..., n - 1`.
pub open spec fn identity(n: nat) -> Seq<u32> {
    Seq::new(n, |i: int| i as u32)
}

/// `half` followed by a copy of itself.
pub open spec fn doubled(half: Seq<u32>) -> Seq<u32> {
    half + half
}

/// `t` is a table that the shuffle can make of the identity: for some
/// complete sequence of valid draws, `t` is the shuffled identity followed by
/// a copy of itself.
pub open spec fn is_shuffled_table(t: Seq<u32>) -> bool {
    exists|draws: Seq<usize>| #[trigger]
        complete_draws(draws, SIZE as int) && t == doubled(shuffled(identity(SIZE as nat), draws))
}

/// A permutation table. Every value of this type satisfies
/// [`is_permutation_table`].
pub struct PermutationTable {
    entries: Vec<u32>,
}

impl View for PermutationTable {
    type V = Seq<u32>;

    closed spec fn view(&self) -> Seq<u32> {
        self.entries@
    }
}

impl PermutationTable {
    #[verifier::type_invariant]
    spec fn well_formed(&self) -> bool {
        is_permutation_table(self.entries@)
    }

    /// The table that holds `values` twice in a row, if `values` is a
    /// permutation of `0..SIZE`.
    pub fn from_permutation(values: &[u32]) -> (result: Option<PermutationTable>)
        ensures
            result is Some <==> is_permutation(values@),
            result matches Some(table) ==> table@ == doubled(values@) && is_permutation_table(
                table@,
            ),
    {
        if values.len() != SIZE {
            return None;
        }
        let mut seen: Vec<bool> = Vec::with_capacity(SIZE);
        for v in 0..SIZE
            invariant
                seen@.len() == v,
                forall|u: int| 0 <= u < v ==> !seen@[u],
        {
            seen.push(false);
        }
        for i in 0..SIZE
            invariant
                values@.len() == SIZE,
                seen@.len() == SIZE,
                forall|j: int| 0 <= j < i ==> values@[j] < SIZE,
                forall|a: int, b: int| 0 <= a < b < i ==> values@[a] != values@[b],
                forall|u: int|
                    0 <= u < SIZE ==> (seen@[u] <==> exists|j: int|
                        0 <= j < i && #[trigger] values@[j] == u),
        {
            let value = values[i];
            if value >= SIZE as u32 {
                proof {
                    broadcast use group_to_multiset_ensures;

                    assert(values@.to_multiset().count(value) > 0);
                }
                return None;
            }
            if seen[value as usize] {
                proof {
                    if is_permutation(values@) {
                        broadcast use vstd::multiset::group_multiset_axioms;

                        values@.lemma_multiset_has_no_duplicates_conv();
                    }
                }
                return None;
            }
            seen[value as usize] = true;
        }
        proof {
            lemma_distinct_values_fill_range(values@);
            lemma_doubled_is_table(values@);
        }
        let mut entries: Vec<u32> = Vec::with_capacity(TABLE_LEN);
        for i in 0..TABLE_LEN
            invariant
                values@.len() == SIZE,
                entries@.len() == i,
                forall|j: int| 0 <= j < i ==> entries@[j] == doubled(values@)[j],
        {
            entries.push(values[i % SIZE]);
        }
        assert(entries@ == doubled(values@));
        Some(PermutationTable { entries })
    }

    /// The `TABLE_LEN` entries of the table.
    pub fn entries(&self) -> (entries: &Vec<u32>)
        ensures
            entries@ == self@,
            is_permutation_table(self@),
    {
        proof {
            use_type_invariant(self);
        }
        &self.entries
    }
}

/// Every entry of a permutation table is below `SIZE`.
pub proof fn lemma_entries_below_size(t: Seq<u32>, i: int)
    requires
        is_permutation_table(t),
        0 <= i < TABLE_LEN,
    ensures
        t[i] < SIZE,
{
    broadcast use group_to_multiset_ensures;

    let half = t.subrange(0, SIZE as int);
    let k = if i < SIZE { i } else { i - SIZE };
    assert(half.contains(half[k]));
    assert(half.to_multiset().count(t[i]) > 0);
}

/// `SIZE` distinct values below `SIZE` are all the values below `SIZE`.
pub proof fn lemma_distinct_values_fill_range(s: Seq<u32>)
    requires
        s.len() == SIZE,
        s.no_duplicates(),
        forall|i: int| 0 <= i < s.len() ==> s[i] < SIZE,
    ensures
        is_permutation(s),
{
    broadcast use {
        group_to_multiset_ensures,
        vstd::multiset::group_multiset_axioms,
        vstd::set_lib::range_set_properties,
        seq_to_set_is_finite,
    };

    let below = Set::<u32>::range(0u32, SIZE as u32);
    s.unique_seq_to_set();
    vstd::set_lib::lemma_subset_equality(s.to_set(), below);
    s.lemma_multiset_has_no_duplicates();
    assert forall|v: u32| #[trigger]
        s.to_multiset().count(v) == (if v < SIZE {
            1nat
        } else {
            0nat
        }) by {
        if v < SIZE {
            assert(s.to_set().contains(v));
        }
    }
}

/// The identity is a permutation.
pub proof fn lemma_identity_is_permutation()
    ensures
        is_permutation(identity(SIZE as nat)),
{
    lemma_distinct_values_fill_range(identity(SIZE as nat));
}

/// A permutation followed by a copy of itself is a permutation table.
pub proof fn lemma_doubled_is_table(half: Seq<u32>)
    requires
        is_permutation(half),
    ensures
        is_permutation_table(doubled(half)),
{
    assert(doubled(half).subrange(0, SIZE as int) == half);
}

/// Whatever is drawn, the shuffle of the identity yields a permutation table,
/// and it leaves the entries from `SIZE / 2` up to `SIZE` at their own index.
pub proof fn lemma_shuffled_table_is_permutation_table(t: Seq<u32>)
    requires
        is_shuffled_table(t),
    ensures
        is_permutation_table(t),
        forall|i: int| SIZE / 2 <= i < SIZE ==> t[i] == i,
{
    let draws = choose|draws: Seq<usize>| #[trigger]
        complete_draws(draws, SIZE as int) && t == doubled(shuffled(identity(SIZE as nat), draws));
    let start = identity(SIZE as nat);
    lemma_identity_is_permutation();
    lemma_shuffled_permutes(start, draws);
    lemma_doubled_is_table(shuffled(start, draws));
    assert forall|i: int| SIZE / 2 <= i < SIZE implies t[i] == i by {
        assert(start[i] == i);
    }
}

/// Makes a permutation table with the help of `rng`: the identity on
/// `0..SIZE` is shuffled, then followed by a copy of itself.
///
/// The shuffle works on the `SIZE` entries of the identity, so it scrambles
/// the entries in front of `SIZE / 2` and keeps the others.
pub fn build_permutation_table(rng: &mut ThreadRng) -> (table: PermutationTable)
    ensures
        is_shuffled_table(table@),
        is_permutation_table(table@),
        forall|i: int| SIZE / 2 <= i < SIZE ==> table@[i] == i,
{
    let mut entries: Vec<u32> = Vec::with_capacity(TABLE_LEN);
    for index in 0..SIZE
        invariant
            entries@ == identity(index as nat),
    {
        entries.push(index as u32);
    }
    shuffle(entries.as_mut_slice(), rng);
    let ghost half = entries@;
    proof {
        let draws = choose|draws: Seq<usize>| #[trigger]
            complete_draws(draws, SIZE as int) && half == shuffled(identity(SIZE as nat), draws);
        lemma_shuffled_permutes(identity(SIZE as nat), draws);
    }
    for index in SIZE..TABLE_LEN
        invariant
            half.len() == SIZE,
            entries@ == half + half.take(index - SIZE),
    {
        let copy = entries[index - SIZE];
        entries.push(copy);
    }
    proof {
        assert(entries@ == doubled(half));
        lemma_shuffled_table_is_permutation_table(entries@);
    }
    PermutationTable { entries }
}

/// Makes a permutation table with the help of the random generator of the
/// current thread.
pub fn create_permutation_table() -> (table: PermutationTable)
    ensures
        is_shuffled_table(table@),
        is_permutation_table(table@),
        forall|i: int| SIZE / 2 <= i < SIZE ==> table@[i] == i,
{
    let mut rng = rand::thread_rng();
    build_permutation_table(&mut rng)
}

/// One of the four diagonal directions `(±1, ±1)`.
#[derive(Clone, Copy, Debug, PartialEq, Eq)]
pub struct Diagonal {
    pub x: i8,
    pub y: i8,
}

/// The diagonal that belongs to a hash: its two lowest bits pick the signs.
pub open spec fn constant_vector(perm: u32) -> Diagonal {
    match perm % 4 {
        0 => Diagonal { x: 1i8, y: 1i8 },
        1 => Diagonal { x: -1i8, y: 1i8 },
        2 => Diagonal { x: 1i8, y: -1i8 },
        _ => Diagonal { x: -1i8, y: -1i8 },
    }
}

/// Every diagonal has the squared length 2.
pub proof fn lemma_constant_vector_length(perm: u32)
    ensures
        constant_vector(perm).x * constant_vector(perm).x + constant_vector(perm).y
            * constant_vector(perm).y == 2,
{
}

/// Picks one of the four diagonals by the two lowest bits of `perm`.
pub fn get_constant_vector(perm: u32) -> (v: Diagonal)
    ensures
        v == constant_vector(perm),
{
    let val = perm & 3;
    assert(val == perm % 4) by (bit_vector)
        requires
            val == perm & 3,
    ;
    match val {
        0 => Diagonal { x: 1, y: 1 },
        1 => Diagonal { x: -1, y: 1 },
        2 => Diagonal { x: 1, y: -1 },
        _ => Diagonal { x: -1, y: -1 },
    }
}

} // verus!
