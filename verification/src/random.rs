//! Weighted sampling with replacement from a finite pool.
//!
//! Uniform randomness comes from the `rand` crate behind trusted wrappers;
//! everything layered on top — turning a uniform residue into a weighted
//! pick — is verified. A pool is an ordered list of `(value, weight)`
//! pairs; a draw picks each entry with probability proportional to its
//! weight, which here takes the exact form: of the `total_weight(pool)`
//! equally likely residues a draw starts from, entry `i` owns exactly
//! `pool[i].1` of them (see [`lemma_weight_share`]).

use vstd::prelude::*;
use vstd::set_lib::lemma_int_range;
use vstd::set_lib::set_int_range;

use rand::seq::SliceRandom;
use rand::Rng;

use crate::color::PlayerColor;

verus! {

/// A weighted pool that cannot be drawn from: it is empty, or every
/// weight in it is zero.
#[derive(Clone, Copy, Debug, PartialEq, Eq, Structural)]
pub enum SamplerError {
    InvalidPool,
}

/// Relies on `rand::Rng::gen_range` over the half-open range `0..bound`:
/// the drawn value lies in the range. (`gen_range` panics on an empty
/// range, which `bound > 0` rules out.)
#[verifier::external_body]
pub(crate) fn random_below(bound: u64) -> (r: u64)
    requires
        bound > 0,
    ensures
        r < bound,
{
    rand::thread_rng().gen_range(0..bound)
}

/// Relies on `rand::seq::SliceRandom::shuffle`: a Fisher–Yates pass of
/// in-place swaps, so the slice afterwards holds the same values in
/// some order.
#[verifier::external_body]
pub(crate) fn shuffle_colors(v: &mut Vec<PlayerColor>)
    ensures
        final(v)@.len() == old(v)@.len(),
        final(v)@.to_multiset() == old(v)@.to_multiset(),
{
    v.shuffle(&mut rand::thread_rng());
}

/// Roll one fair six-sided die.
pub fn roll_die() -> (d: u8)
    ensures
        1 <= d <= 6,
{
    let u = random_below(6);
    1 + (u as u8)
}

/// Sum of all the weights in the pool.
pub open spec fn total_weight<T>(pool: Seq<(T, u64)>) -> nat
    decreases pool.len(),
{
    if pool.len() == 0 {
        0
    } else {
        (total_weight(pool.drop_last()) + pool.last().1) as nat
    }
}

/// `x` is a value that a draw from `pool` can return: it stands in the
/// pool with a weight above zero.
pub open spec fn sampleable<T>(pool: Seq<(T, u64)>, x: T) -> bool {
    exists|i: int| 0 <= i < pool.len() && (#[trigger] pool[i]).0 == x && pool[i].1 > 0
}

/// Extending a prefix of the pool by one entry adds that entry's weight.
pub proof fn lemma_prefix_step<T>(pool: Seq<(T, u64)>, i: int)
    requires
        0 <= i < pool.len(),
    ensures
        total_weight(pool.take(i + 1)) == total_weight(pool.take(i)) + pool[i].1,
{
    assert(pool.take(i + 1).drop_last() =~= pool.take(i));
    assert(pool.take(i + 1).last() == pool[i]);
}

/// A prefix of the pool never weighs more than the whole pool.
pub proof fn lemma_prefix_le<T>(pool: Seq<(T, u64)>, i: int)
    requires
        0 <= i <= pool.len(),
    ensures
        total_weight(pool.take(i)) <= total_weight(pool),
    decreases pool.len() - i,
{
    if i == pool.len() {
        assert(pool.take(i) =~= pool);
    } else {
        lemma_prefix_step(pool, i);
        lemma_prefix_le(pool, i + 1);
    }
}

/// A pool with some positive weight has a positive total.
pub proof fn lemma_total_weight_pos<T>(pool: Seq<(T, u64)>, i: int)
    requires
        0 <= i < pool.len(),
        pool[i].1 > 0,
    ensures
        total_weight(pool) > 0,
{
    lemma_prefix_step(pool, i);
    lemma_prefix_le(pool, i + 1);
}

/// If every weight is at most `w`, the total is at most `len * w`.
pub proof fn lemma_total_weight_bound<T>(pool: Seq<(T, u64)>, w: u64)
    requires
        forall|i: int| 0 <= i < pool.len() ==> (#[trigger] pool[i]).1 <= w,
    ensures
        total_weight(pool) <= pool.len() * w,
    decreases pool.len(),
{
    if pool.len() > 0 {
        lemma_total_weight_bound(pool.drop_last(), w);
        assert((pool.len() - 1) * w + w == pool.len() * w) by (nonlinear_arith);
    }
}

/// Law: draws are proportional to weight. The uniform residues a draw
/// starts from are `0 .. total_weight(pool)`; the residues that select
/// entry `i` are exactly the interval from `total_weight(pool.take(i))`
/// to `total_weight(pool.take(i + 1))`, and there are `pool[i].1` of
/// them — entry `i`'s share of the draw is its weight.
pub proof fn lemma_weight_share<T>(pool: Seq<(T, u64)>, i: int)
    requires
        0 <= i < pool.len(),
    ensures
        total_weight(pool.take(i + 1)) == total_weight(pool.take(i)) + pool[i].1,
        set_int_range(
            total_weight(pool.take(i)) as int,
            total_weight(pool.take(i + 1)) as int,
        ).len() == pool[i].1,
        set_int_range(
            total_weight(pool.take(i)) as int,
            total_weight(pool.take(i + 1)) as int,
        ).finite(),
{
    lemma_prefix_step(pool, i);
    lemma_int_range(
        total_weight(pool.take(i)) as int,
        total_weight(pool.take(i + 1)) as int,
    );
}

/// Compute the total weight of the pool.
fn sum_weights<T: Copy>(pool: &Vec<(T, u64)>) -> (t: u64)
    requires
        total_weight(pool@) <= u64::MAX,
    ensures
        t == total_weight(pool@),
{
    let mut acc: u64 = 0;
    let mut i: usize = 0;
    while i < pool.len()
        invariant
            i <= pool@.len(),
            acc == total_weight(pool@.take(i as int)),
            total_weight(pool@) <= u64::MAX,
        decreases pool@.len() - i,
    {
        proof {
            lemma_prefix_step(pool@, i as int);
            lemma_prefix_le(pool@, i as int + 1);
        }
        acc = acc + pool[i].1;
        i = i + 1;
    }
    proof {
        assert(pool@.take(i as int) =~= pool@);
    }
    acc
}

/// Turn a uniform residue into the index it selects: the entry whose
/// weight interval the residue falls in.
fn pick<T: Copy>(pool: &Vec<(T, u64)>, u: u64) -> (i: usize)
    requires
        u < total_weight(pool@),
        total_weight(pool@) <= u64::MAX,
    ensures
        i < pool@.len(),
        total_weight(pool@.take(i as int)) <= u,
        u < total_weight(pool@.take(i as int + 1)),
        pool@[i as int].1 > 0,
{
    let mut acc: u64 = 0;
    let mut i: usize = 0;
    while i < pool.len()
        invariant
            i <= pool@.len(),
            acc == total_weight(pool@.take(i as int)),
            acc <= u,
            u < total_weight(pool@),
            total_weight(pool@) <= u64::MAX,
        decreases pool@.len() - i,
    {
        proof {
            lemma_prefix_step(pool@, i as int);
            lemma_prefix_le(pool@, i as int + 1);
        }
        let w = pool[i].1;
        if u < acc + w {
            return i;
        }
        acc = acc + w;
        i = i + 1;
    }
    proof {
        assert(pool@.take(i as int) =~= pool@);
        assert(false);
    }
    vstd::pervasive::unreached()
}

/// Draw `count` values from the weighted pool, independently and with
/// replacement. Fails exactly when the pool cannot be drawn from: it is
/// empty or all its weights are zero (equivalently, its total weight is
/// zero). Every value drawn stands in the pool with a positive weight.
pub fn sample_weighted<T: Copy>(pool: &Vec<(T, u64)>, count: usize) -> (r: Result<
    Vec<T>,
    SamplerError,
>)
    requires
        total_weight(pool@) <= u64::MAX,
    ensures
        match r {
            Ok(v) => {
                &&& total_weight(pool@) > 0
                &&& v@.len() == count
                &&& forall|k: int| 0 <= k < count ==> sampleable(pool@, #[trigger] v@[k])
            },
            Err(e) => {
                &&& total_weight(pool@) == 0
                &&& e == SamplerError::InvalidPool
            },
        },
{
    let total = sum_weights(pool);
    if total == 0 {
        return Err(SamplerError::InvalidPool);
    }
    let mut v: Vec<T> = Vec::new();
    let mut k: usize = 0;
    while k < count
        invariant
            k <= count,
            v@.len() == k,
            total == total_weight(pool@),
            total > 0,
            total_weight(pool@) <= u64::MAX,
            forall|j: int| 0 <= j < k ==> sampleable(pool@, #[trigger] v@[j]),
        decreases count - k,
    {
        let u = random_below(total);
        let i = pick(pool, u);
        v.push(pool[i].0);
        k = k + 1;
    }
    Ok(v)
}

} // verus!
