//! Which of the puzzle's gradient colours each shape gets.

use rand::seq::SliceRandom;
use rand::SeedableRng;
use rand_chacha::ChaCha8Rng;
use vstd::prelude::*;

verus! {

broadcast use vstd::seq_lib::group_to_multiset_ensures;

/// The order that a seeded ChaCha8 shuffle leaves `items` in.
pub uninterp spec fn chacha_shuffle(items: Seq<usize>, seed: u64) -> Seq<usize>;

/// Relies on rand's `SliceRandom::shuffle`, driven by rand_chacha's `ChaCha8Rng`
/// made by `SeedableRng::seed_from_u64(seed)`: the shuffle is a pass of swaps, so the
/// result is a rearrangement of `items`, and a seeded generator makes it depend on
/// `items` and `seed` alone.
#[verifier::external_body]
fn shuffle_seeded(items: Vec<usize>, seed: u64) -> (r: Vec<usize>)
    ensures
        r@ == chacha_shuffle(items@, seed),
        r@.to_multiset() == items@.to_multiset(),
{
    let mut items = items;
    items.shuffle(&mut ChaCha8Rng::seed_from_u64(seed));
    items
}

/// The indices `0 .. n` in order.
pub open spec fn indices(n: nat) -> Seq<usize> {
    Seq::new(n, |i: int| i as usize)
}

/// The colour index of each of `n` shapes: the indices `0 .. n`, shuffled with the
/// shape count as the seed.
pub open spec fn color_order(n: nat) -> Seq<usize> {
    chacha_shuffle(indices(n), n as u64)
}

/// The colour index of each of `n` shapes: a rearrangement of `0 .. n`, the same
/// for every puzzle with `n` shapes.
pub fn shape_colors(n: usize) -> (r: Vec<usize>)
    ensures
        r@ == color_order(n as nat),
        r@.to_multiset() == indices(n as nat).to_multiset(),
        r@.len() == n,
        forall|i: int| 0 <= i < n ==> #[trigger] r@[i] < n,
{
    let mut items: Vec<usize> = Vec::new();
    for i in 0..n
        invariant
            items@ =~= indices(i as nat),
    {
        items.push(i);
    }
    let ghost before = items@;
    assert(before.len() == n);
    let r = shuffle_seeded(items, n as u64);
    assert(r@.to_multiset().len() == before.to_multiset().len());
    assert forall|i: int| 0 <= i < n implies #[trigger] r@[i] < n by {
        assert(r@.contains(r@[i]));
        assert(r@.to_multiset().count(r@[i]) > 0);
        assert(before.contains(r@[i]));
    }
    r
}

} // verus!
