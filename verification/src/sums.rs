//! Prefix sums over sequences of per-position deltas, and the sets of
//! positions they count. These spec functions are the mathematical model that
//! the prefix-sum tree and the ordered set are verified against.

use vstd::prelude::*;

verus! {

/// Sum of the first `k` entries of `d`, that is, of the prefix `[0, k)`.
pub open spec fn sum_prefix(d: Seq<int>, k: int) -> int
    decreases k,
{
    if k <= 0 {
        0
    } else {
        sum_prefix(d, k - 1) + d[k - 1]
    }
}

/// Sum of the entries of `d` with indices in `[a, b)`.
pub open spec fn sum_between(d: Seq<int>, a: int, b: int) -> int {
    sum_prefix(d, b) - sum_prefix(d, a)
}

/// Every entry of `d` is non-negative.
pub open spec fn all_nonneg(d: Seq<int>) -> bool {
    forall|i: int| 0 <= i < d.len() ==> d[i] >= 0
}

/// Every entry of `d` is zero or one.
pub open spec fn all_zero_one(d: Seq<int>) -> bool {
    forall|i: int| 0 <= i < d.len() ==> d[i] == 0 || d[i] == 1
}

pub proof fn lemma_zero_one_nonneg(d: Seq<int>)
    requires
        all_zero_one(d),
    ensures
        all_nonneg(d),
{
}

/// A prefix of an all-zero sequence sums to zero.
pub proof fn lemma_sum_prefix_zero(d: Seq<int>, k: int)
    requires
        forall|i: int| 0 <= i < d.len() ==> d[i] == 0,
        k <= d.len(),
    ensures
        sum_prefix(d, k) == 0,
    decreases k,
{
    if k > 0 {
        lemma_sum_prefix_zero(d, k - 1);
    }
}

/// Updating one entry shifts exactly the prefix sums that cover it.
pub proof fn lemma_sum_prefix_update(d: Seq<int>, i: int, x: int, k: int)
    requires
        0 <= i < d.len(),
        0 <= k <= d.len(),
    ensures
        sum_prefix(d.update(i, x), k) == sum_prefix(d, k) + if i < k {
            x - d[i]
        } else {
            0
        },
    decreases k,
{
    if k > 0 {
        lemma_sum_prefix_update(d, i, x, k - 1);
    }
}

/// Prefix sums of a non-negative sequence grow monotonically.
pub proof fn lemma_sum_prefix_monotonic(d: Seq<int>, a: int, b: int)
    requires
        all_nonneg(d),
        0 <= a <= b <= d.len(),
    ensures
        sum_prefix(d, a) <= sum_prefix(d, b),
    decreases b,
{
    if a < b {
        lemma_sum_prefix_monotonic(d, a, b - 1);
    }
}

/// Over a zero-one sequence, a segment sums to at least zero and at most its width.
pub proof fn lemma_sum_between_bounds(d: Seq<int>, a: int, b: int)
    requires
        all_zero_one(d),
        0 <= a <= b <= d.len(),
    ensures
        0 <= sum_between(d, a, b) <= b - a,
    decreases b,
{
    if a < b {
        lemma_sum_between_bounds(d, a, b - 1);
    }
}

/// The smallest index at or after `c` whose entry is one; `d.len()` if there is none.
pub open spec fn first_member_from(d: Seq<int>, c: int) -> int
    decreases d.len() - c,
{
    if c < 0 || c >= d.len() {
        d.len() as int
    } else if d[c] == 1 {
        c
    } else {
        first_member_from(d, c + 1)
    }
}

pub proof fn lemma_first_member_from(d: Seq<int>, c: int)
    requires
        0 <= c <= d.len(),
    ensures
        c <= first_member_from(d, c) <= d.len(),
        first_member_from(d, c) < d.len() ==> d[first_member_from(d, c)] == 1,
        forall|i: int| c <= i < first_member_from(d, c) ==> d[i] != 1,
    decreases d.len() - c,
{
    if c < d.len() && d[c] != 1 {
        lemma_first_member_from(d, c + 1);
    }
}

/// The set of positions below `v` whose entry is one.
pub open spec fn members_below(d: Seq<int>, v: int) -> Set<int> {
    Set::new(|u: int| 0 <= u < v && u < d.len() && d[u] == 1)
}

/// The set of all positions whose entry is one.
pub open spec fn member_set(d: Seq<int>) -> Set<int> {
    Set::new(|u: int| 0 <= u < d.len() && d[u] == 1)
}

/// Counting the members below `v` computes the prefix sum at `v`.
pub proof fn lemma_members_below_count(d: Seq<int>, v: int)
    requires
        all_zero_one(d),
        0 <= v <= d.len(),
    ensures
        members_below(d, v).finite(),
        members_below(d, v).len() == sum_prefix(d, v),
    decreases v,
{
    if v == 0 {
        assert(members_below(d, 0) =~= Set::empty());
    } else {
        lemma_members_below_count(d, v - 1);
        if d[v - 1] == 1 {
            assert(members_below(d, v) =~= members_below(d, v - 1).insert(v - 1));
        } else {
            assert(members_below(d, v) =~= members_below(d, v - 1));
        }
    }
}

/// The whole member set is finite and counted by the full prefix sum.
pub proof fn lemma_member_set_count(d: Seq<int>)
    requires
        all_zero_one(d),
    ensures
        member_set(d).finite(),
        member_set(d).len() == sum_prefix(d, d.len() as int),
    decreases d.len(),
{
    lemma_members_below_count(d, d.len() as int);
    assert(member_set(d) =~= members_below(d, d.len() as int));
}

/// The members of `d` at or after position `c`, in ascending order.
pub open spec fn ascending_members(d: Seq<int>, c: int) -> Seq<int>
    decreases d.len() - c,
{
    if c < 0 || c >= d.len() {
        Seq::empty()
    } else if d[c] == 1 {
        seq![c] + ascending_members(d, c + 1)
    } else {
        ascending_members(d, c + 1)
    }
}

/// An ascending traversal from `c` yields one value per unit of remaining sum.
pub proof fn lemma_ascending_members_len(d: Seq<int>, c: int)
    requires
        all_zero_one(d),
        0 <= c <= d.len(),
    ensures
        ascending_members(d, c).len() == sum_between(d, c, d.len() as int),
    decreases d.len() - c,
{
    lemma_sum_between_bounds(d, c, d.len() as int);
    if c < d.len() {
        lemma_ascending_members_len(d, c + 1);
    }
}

/// One traversal step peels exactly the head off the ascending member list:
/// the list from `c` starts with the first member at or after `c`, continues
/// as the list from just past it, and is empty exactly when no member is left.
pub proof fn lemma_ascending_members_step(d: Seq<int>, c: int)
    requires
        all_zero_one(d),
        0 <= c <= d.len(),
    ensures
        first_member_from(d, c) < d.len() ==> ascending_members(d, c) =~= seq![
            first_member_from(d, c),
        ] + ascending_members(d, first_member_from(d, c) + 1),
        first_member_from(d, c) == d.len() ==> ascending_members(d, c) =~= Seq::empty(),
    decreases d.len() - c,
{
    lemma_first_member_from(d, c);
    if c < d.len() && d[c] != 1 {
        lemma_ascending_members_step(d, c + 1);
    }
}

/// The `k`-th value of an ascending traversal from `c` is a member, and exactly
/// `k` members lie between `c` and it.
pub proof fn lemma_ascending_members_index(d: Seq<int>, c: int, k: int)
    requires
        all_zero_one(d),
        0 <= c <= d.len(),
        0 <= k < ascending_members(d, c).len(),
    ensures
        c <= ascending_members(d, c)[k] < d.len(),
        d[ascending_members(d, c)[k]] == 1,
        sum_prefix(d, ascending_members(d, c)[k]) == sum_prefix(d, c) + k,
    decreases d.len() - c,
{
    lemma_ascending_members_len(d, c);
    if c < d.len() {
        if d[c] == 1 {
            if k == 0 {
                assert(ascending_members(d, c)[0] == c);
            } else {
                lemma_ascending_members_index(d, c + 1, k - 1);
                assert(ascending_members(d, c)[k] == ascending_members(d, c + 1)[k - 1]);
            }
        } else {
            lemma_ascending_members_index(d, c + 1, k);
        }
    }
}

/// Two members with equal prefix sums are the same position.
pub proof fn lemma_prefix_identifies_member(d: Seq<int>, v1: int, v2: int)
    requires
        all_zero_one(d),
        0 <= v1 < d.len(),
        0 <= v2 < d.len(),
        d[v1] == 1,
        d[v2] == 1,
        sum_prefix(d, v1) == sum_prefix(d, v2),
    ensures
        v1 == v2,
{
    lemma_zero_one_nonneg(d);
    if v1 < v2 {
        assert(sum_prefix(d, v1 + 1) == sum_prefix(d, v1) + 1);
        lemma_sum_prefix_monotonic(d, v1 + 1, v2);
    }
    if v2 < v1 {
        assert(sum_prefix(d, v2 + 1) == sum_prefix(d, v2) + 1);
        lemma_sum_prefix_monotonic(d, v2 + 1, v1);
    }
}

} // verus!
