//! The in-place shuffle that scrambles the front of a slice.
//!
//! For a slice of length `n` the shuffle takes the steps `i = n / 2 - 1`,
//! `n / 2 - 2`, ..., `1`. Step `i` draws a partner in `0..=i` and exchanges
//! the entries at `i` and at the partner. Entries from `n / 2` on are never
//! touched.

use vstd::prelude::*;
use vstd::seq_lib::*;
use rand::rngs::ThreadRng;
use crate::random::random_below;

verus! {

/// `s` with the entries at `i` and `j` exchanged.
pub open spec fn swapped(s: Seq<u32>, i: int, j: int) -> Seq<u32> {
    s.update(i, s[j]).update(j, s[i])
}

/// `draws` can serve as the partners of the first `draws.len()` steps of the
/// shuffle of a slice of length `n`: there are no more draws than steps, and
/// the partner of the step that works at index `i` is at most `i`.
pub open spec fn valid_draws(draws: Seq<usize>, n: int) -> bool {
    &&& draws.len() <= n / 2 - 1
    &&& forall|k: int| 0 <= k < draws.len() ==> #[trigger] draws[k] <= n / 2 - 1 - k
}

/// `draws` holds one valid partner for each step of the shuffle of a slice
/// of length `n`. No such `draws` exists for `n < 2`.
pub open spec fn complete_draws(draws: Seq<usize>, n: int) -> bool {
    &&& valid_draws(draws, n)
    &&& draws.len() == n / 2 - 1
}

/// `s` after the first `draws.len()` steps of the shuffle. Step number `k`,
/// counted from 0, exchanges the entries at `s.len() / 2 - 1 - k` and at
/// `draws[k]`.
pub open spec fn shuffled(s: Seq<u32>, draws: Seq<usize>) -> Seq<u32>
    decreases draws.len(),
{
    if draws.len() == 0 {
        s
    } else {
        swapped(shuffled(s, draws.drop_last()), s.len() / 2 - draws.len(), draws.last() as int)
    }
}

/// Exchanging two entries keeps the multiset of entries.
pub proof fn lemma_swapped_permutes(s: Seq<u32>, i: int, j: int)
    requires
        0 <= i < s.len(),
        0 <= j < s.len(),
    ensures
        swapped(s, i, j).len() == s.len(),
        swapped(s, i, j).to_multiset() == s.to_multiset(),
{
    broadcast use {group_to_multiset_ensures, vstd::multiset::group_multiset_axioms};
}

/// The shuffle rearranges the entries in front of `s.len() / 2` among
/// themselves and leaves the others where they are, whatever is drawn.
pub proof fn lemma_shuffled_permutes(s: Seq<u32>, draws: Seq<usize>)
    requires
        valid_draws(draws, s.len() as int),
    ensures
        shuffled(s, draws).len() == s.len(),
        shuffled(s, draws).to_multiset() == s.to_multiset(),
        forall|j: int| s.len() / 2 <= j < s.len() ==> shuffled(s, draws)[j] == s[j],
    decreases draws.len(),
{
    if draws.len() > 0 {
        let before = draws.drop_last();
        lemma_shuffled_permutes(s, before);
        lemma_swapped_permutes(shuffled(s, before), s.len() / 2 - draws.len(), draws.last() as int);
    }
}

/// Exchanges the entries at `i` and `j`.
fn exchange(arr: &mut [u32], i: usize, j: usize)
    requires
        i < old(arr)@.len(),
        j < old(arr)@.len(),
    ensures
        final(arr)@ == swapped(old(arr)@, i as int, j as int),
{
    let at_i = arr[i];
    let at_j = arr[j];
    arr[i] = at_j;
    arr[j] = at_i;
}

/// Shuffles `arr` in place with partners drawn from `rng`.
///
/// The outcome is the shuffle by some complete sequence of valid draws;
/// [`lemma_shuffled_permutes`] says what all of those have in common.
pub fn shuffle(arr: &mut [u32], rng: &mut ThreadRng)
    requires
        old(arr)@.len() >= 2,
    ensures
        exists|draws: Seq<usize>| #[trigger]
            complete_draws(draws, old(arr)@.len() as int) && final(arr)@ == shuffled(
                old(arr)@,
                draws,
            ),
{
    let ghost start = arr@;
    let ghost mut draws: Seq<usize> = Seq::empty();
    let mut i: usize = arr.len() / 2 - 1;
    while i > 0
        invariant
            arr.len() == start.len(),
            i + draws.len() == start.len() / 2 - 1,
            valid_draws(draws, start.len() as int),
            arr@ == shuffled(start, draws),
        decreases i,
    {
        let rand_index = random_below(rng, i + 1);
        exchange(arr, i, rand_index);
        proof {
            let earlier = draws;
            draws = draws.push(rand_index);
            assert(draws.drop_last() == earlier);
        }
        i -= 1;
    }
    assert(complete_draws(draws, start.len() as int));
}

/// Shuffles `arr` in place with the partners given in `draws`, in the order
/// in which they would have been drawn.
///
/// Returns `false` and leaves `arr` as it is unless `draws` holds exactly one
/// valid partner for each step.
pub fn shuffle_with(arr: &mut [u32], draws: &[usize]) -> (done: bool)
    ensures
        done == complete_draws(draws@, old(arr)@.len() as int),
        done ==> final(arr)@ == shuffled(old(arr)@, draws@),
        !done ==> final(arr)@ == old(arr)@,
{
    let n = arr.len();
    if n < 2 || draws.len() != n / 2 - 1 {
        return false;
    }
    let top = n / 2 - 1;
    for k in 0..top
        invariant
            top == n / 2 - 1,
            draws@.len() == top,
            forall|m: int| 0 <= m < k ==> #[trigger] draws@[m] <= top - m,
    {
        if draws[k] > top - k {
            return false;
        }
    }
    let ghost start = arr@;
    for k in 0..top
        invariant
            n == start.len(),
            top == n / 2 - 1,
            complete_draws(draws@, n as int),
            arr@.len() == n,
            arr@ == shuffled(start, draws@.take(k as int)),
    {
        exchange(arr, top - k, draws[k]);
        proof {
            assert(draws@.take(k + 1).drop_last() == draws@.take(k as int));
        }
    }
    proof {
        assert(draws@.take(top as int) == draws@);
    }
    true
}

} // verus!
