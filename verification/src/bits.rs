//! Lowest-set-bit arithmetic. The prefix-sum tree walks its counter array by
//! clearing or adding the lowest set bit of an index; these lemmas state the
//! few facts about those walks that the verification of the tree rests on.

use vstd::prelude::*;

verus! {

/// `j` with its lowest set bit cleared.
pub open spec fn drop_low(j: usize) -> usize {
    j & ((j - 1) as usize)
}

/// The next index of an update walk: `j` plus its lowest set bit.
pub open spec fn step_up(j: usize) -> usize {
    (2 * j - drop_low(j)) as usize
}

/// `k` is a power of two.
pub open spec fn is_pow2(k: usize) -> bool {
    k >= 1 && drop_low(k) == 0
}

/// `cur` is a multiple of `k`, for `k` a power of two.
pub open spec fn aligned_to(cur: usize, k: usize) -> bool {
    cur & ((k - 1) as usize) == 0
}

/// Clearing the lowest set bit strictly decreases a positive index.
pub proof fn lemma_drop_low_decreases(j: usize)
    requires
        1 <= j,
    ensures
        drop_low(j) < j,
{
    assert(drop_low(j) < j) by (bit_vector)
        requires
            1 <= j,
    ;
}

/// Adding the lowest set bit moves strictly up, at most doubles the index,
/// and never lowers the range that the index covers.
pub proof fn lemma_step_up(j: usize)
    requires
        1 <= j <= 0x2000_0000,
    ensures
        j < step_up(j),
        step_up(j) <= 2 * j,
        drop_low(step_up(j)) <= drop_low(j),
{
    assert(j < step_up(j) && step_up(j) <= 2 * j && drop_low(step_up(j)) <= drop_low(j))
        by (bit_vector)
        requires
            1 <= j <= 0x2000_0000,
    ;
}

/// No index strictly between `j` and `step_up(j)` covers a range reaching back to `j`.
pub proof fn lemma_no_cover_between(j: usize, m: usize)
    requires
        1 <= j <= 0x2000_0000,
        j < m < step_up(j),
    ensures
        drop_low(m) >= j,
{
    assert(drop_low(m) >= j) by (bit_vector)
        requires
            1 <= j <= 0x2000_0000 && j < m < step_up(j),
    ;
}

/// One is a power of two.
pub proof fn lemma_pow2_one()
    ensures
        is_pow2(1),
{
    assert(1usize & 0usize == 0usize) by (bit_vector);
}

/// Doubling keeps a bounded power of two a power of two.
pub proof fn lemma_pow2_double(k: usize)
    requires
        is_pow2(k),
        k <= 0x2000_0000,
    ensures
        is_pow2((2 * k) as usize),
{
    assert(is_pow2((2 * k) as usize)) by (bit_vector)
        requires
            is_pow2(k) && k <= 0x2000_0000,
    ;
}

/// Halving a power of two: the result is again a power of two, except that one halves to zero.
pub proof fn lemma_pow2_halve(k: usize)
    requires
        is_pow2(k),
    ensures
        k >= 2 ==> is_pow2(k / 2) && 2 * (k / 2) == k,
        k == 1 ==> k / 2 == 0,
{
    assert((k >= 2 ==> is_pow2(k / 2) && 2 * (k / 2) == k) && (k == 1 ==> k / 2 == 0))
        by (bit_vector)
        requires
            is_pow2(k),
    ;
}

/// Zero is aligned to everything.
pub proof fn lemma_zero_aligned(k: usize)
    requires
        k >= 1,
    ensures
        aligned_to(0, k),
{
    assert(0usize & ((k - 1) as usize) == 0usize) by (bit_vector);
}

/// Alignment to a doubled power of two implies alignment to the power itself.
pub proof fn lemma_align_weaken(cur: usize, k: usize)
    requires
        is_pow2(k),
        k <= 0x2000_0000,
        aligned_to(cur, (2 * k) as usize),
    ensures
        aligned_to(cur, k),
{
    assert(aligned_to(cur, k)) by (bit_vector)
        requires
            is_pow2(k) && k <= 0x2000_0000 && aligned_to(cur, (2 * k) as usize),
    ;
}

/// Extending an index aligned to `2 * k` by a power of two `k`: the extended
/// index covers exactly the segment between the two, and stays aligned to `k`.
pub proof fn lemma_commit_step(cur: usize, k: usize)
    requires
        is_pow2(k),
        k <= 0x2000_0000,
        cur <= 0x2000_0000,
        aligned_to(cur, (2 * k) as usize),
    ensures
        drop_low((cur + k) as usize) == cur,
        aligned_to((cur + k) as usize, k),
{
    assert(drop_low((cur + k) as usize) == cur && aligned_to((cur + k) as usize, k))
        by (bit_vector)
        requires
            is_pow2(k) && k <= 0x2000_0000 && cur <= 0x2000_0000 && aligned_to(
                cur,
                (2 * k) as usize,
            ),
    ;
}

} // verus!
