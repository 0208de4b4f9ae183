//! A bounded ordered integer set backed by a binary indexed prefix-sum tree
//! (a Fenwick tree): membership, insertion, deletion, order-statistic queries,
//! ascending iteration and uniform sampling, all in logarithmic time.

use vstd::prelude::*;

use crate::rng::RandomSource;
use crate::sums::{
    all_nonneg, all_zero_one, ascending_members, first_member_from, member_set, members_below,
    lemma_ascending_members_index, lemma_ascending_members_len, lemma_first_member_from,
    lemma_member_set_count, lemma_members_below_count, lemma_sum_between_bounds,
    lemma_sum_prefix_update, lemma_sum_prefix_zero, lemma_zero_one_nonneg,
};
use crate::bits::{
    aligned_to, drop_low, is_pow2, lemma_align_weaken, lemma_commit_step,
    lemma_drop_low_decreases, lemma_no_cover_between, lemma_pow2_double, lemma_pow2_halve,
    lemma_pow2_one, lemma_step_up, lemma_zero_aligned, step_up,
};

verus! {

/// Largest domain the prefix-sum tree accepts; it keeps every index walk,
/// including the doubled search step, inside `usize` on every platform.
pub const MAX_TREE_LEN: usize = 0x2000_0000;

/// A flat binary indexed (Fenwick) tree over a fixed domain `[0, len)` of
/// signed counters: point update and prefix-sum query in logarithmic time.
pub struct FenwickTree {
    counters: Vec<i32>,
    len: usize,
    deltas: Ghost<Seq<int>>,
}

impl FenwickTree {
    /// The per-position deltas this tree currently encodes.
    pub closed spec fn model(self) -> Seq<int> {
        self.deltas@
    }

    /// The number of positions in the tree's domain.
    pub closed spec fn domain(self) -> int {
        self.deltas@.len() as int
    }

    /// Every segment of `d` sums to a value representable in the counters.
    pub open spec fn fits(d: Seq<int>) -> bool {
        forall|a: int, b: int|
            0 <= a <= b <= d.len() ==> i32::MIN <= #[trigger] crate::sums::sum_between(d, a, b)
                <= i32::MAX
    }

    /// Structural invariant: counter `j` (1-indexed) holds the sum of the
    /// deltas over the segment its index covers, `[drop_low(j), j)`.
    pub closed spec fn wf(self) -> bool {
        &&& self.len == self.deltas@.len()
        &&& self.len <= MAX_TREE_LEN
        &&& self.counters@.len() == self.len + 1
        &&& self.counters@[0] == 0
        &&& Self::fits(self.deltas@)
        &&& forall|j: usize|
            1 <= j <= self.len ==> #[trigger] self.counters@[j as int] as int
                == crate::sums::sum_between(self.deltas@, drop_low(j) as int, j as int)
    }

    /// Builds a tree of `length` zeroed positions.
    pub fn new(length: usize) -> (t: Self)
        requires
            length <= MAX_TREE_LEN,
        ensures
            t.wf(),
            t.model() == Seq::new(length as nat, |i: int| 0int),
    {
        let mut counters: Vec<i32> = Vec::new();
        let total = length + 1;
        while counters.len() < total
            invariant
                counters@.len() <= total,
                forall|j: int| 0 <= j < counters@.len() ==> counters@[j] == 0i32,
            decreases total - counters@.len(),
        {
            counters.push(0);
        }
        let ghost d = Seq::new(length as nat, |i: int| 0int);
        let t = FenwickTree { counters, len: length, deltas: Ghost(d) };
        proof {
            assert forall|a: int, b: int| 0 <= a <= b <= d.len() implies i32::MIN
                <= #[trigger] crate::sums::sum_between(d, a, b) <= i32::MAX by {
                crate::sums::lemma_sum_prefix_zero(d, a);
                crate::sums::lemma_sum_prefix_zero(d, b);
            }
            assert forall|j: usize| 1 <= j <= t.len implies #[trigger] t.counters@[j as int] as int
                == crate::sums::sum_between(d, drop_low(j) as int, j as int) by {
                lemma_drop_low_decreases(j);
                crate::sums::lemma_sum_prefix_zero(d, drop_low(j) as int);
                crate::sums::lemma_sum_prefix_zero(d, j as int);
            }
        }
        t
    }

    /// Applies delta `plus` at position `idx`: exactly the counters whose
    /// segment covers `idx` shift by `plus`.
    pub fn add(&mut self, idx: usize, plus: i32)
        requires
            old(self).wf(),
            idx < old(self).domain(),
            Self::fits(
                old(self).model().update(idx as int, old(self).model()[idx as int] + plus),
            ),
        ensures
            final(self).wf(),
            final(self).model() == old(self).model().update(
                idx as int,
                old(self).model()[idx as int] + plus,
            ),
    {
        let ghost d0 = self.deltas@;
        let ghost d1 = d0.update(idx as int, d0[idx as int] + plus);
        self.deltas = Ghost(d1);
        let mut j = idx + 1;
        proof {
            lemma_drop_low_decreases(j);
        }
        while j <= self.len
            invariant
                self.deltas@ == d1,
                self.len == d1.len(),
                d1.len() == d0.len(),
                self.len <= MAX_TREE_LEN,
                self.counters@.len() == self.len + 1,
                self.counters@[0] == 0,
                idx < d1.len(),
                d1 == d0.update(idx as int, d0[idx as int] + plus),
                Self::fits(d0),
                Self::fits(d1),
                1 <= j,
                drop_low(j) <= idx < j,
                forall|q: usize|
                    1 <= q <= self.len && drop_low(q) <= idx < q && q < j
                        ==> #[trigger] self.counters@[q as int] as int == crate::sums::sum_between(
                        d1,
                        drop_low(q) as int,
                        q as int,
                    ),
                forall|q: usize|
                    1 <= q <= self.len && !(drop_low(q) <= idx < q && q < j)
                        ==> #[trigger] self.counters@[q as int] as int == crate::sums::sum_between(
                        d0,
                        drop_low(q) as int,
                        q as int,
                    ),
            decreases 2 * self.len - j,
        {
            let c = self.counters[j];
            proof {
                assert(c as int == crate::sums::sum_between(d0, drop_low(j) as int, j as int));
                crate::sums::lemma_sum_prefix_update(d0, idx as int, d0[idx as int] + plus, j as int);
                crate::sums::lemma_sum_prefix_update(
                    d0,
                    idx as int,
                    d0[idx as int] + plus,
                    drop_low(j) as int,
                );
                assert(crate::sums::sum_between(d1, drop_low(j) as int, j as int) == c + plus);
                assert(i32::MIN <= crate::sums::sum_between(d1, drop_low(j) as int, j as int)
                    <= i32::MAX);
            }
            self.counters[j] = c + plus;
            let dl = j & (j - 1);
            proof {
                assert(dl == drop_low(j));
                lemma_step_up(j);
            }
            let next = j + (j - dl);
            proof {
                assert(next == step_up(j));
                assert(drop_low(next) <= idx < next);
                assert forall|m: usize| j < m < next implies !(#[trigger] drop_low(m) <= idx < m) by {
                    lemma_no_cover_between(j, m);
                }
            }
            j = next;
        }
        proof {
            assert forall|q: usize|
                1 <= q <= self.len && !(drop_low(q) <= idx < q) implies #[trigger] self
                .counters@[q as int] as int == crate::sums::sum_between(
                d1,
                drop_low(q) as int,
                q as int,
            ) by {
                lemma_drop_low_decreases(q);
                crate::sums::lemma_sum_prefix_update(d0, idx as int, d0[idx as int] + plus, q as int);
                crate::sums::lemma_sum_prefix_update(
                    d0,
                    idx as int,
                    d0[idx as int] + plus,
                    drop_low(q) as int,
                );
            }
        }
    }

    /// Prefix sum over `[0, range_max)`.
    pub fn sum(&self, range_max: usize) -> (s: i32)
        requires
            self.wf(),
            range_max <= self.domain(),
        ensures
            s as int == crate::sums::sum_prefix(self.model(), range_max as int),
    {
        let ghost d = self.deltas@;
        let mut s: i32 = 0;
        let mut idx = range_max;
        while idx > 0
            invariant
                self.wf(),
                d == self.deltas@,
                idx <= range_max <= d.len(),
                s as int == crate::sums::sum_between(d, idx as int, range_max as int),
            decreases idx,
        {
            let c = self.counters[idx];
            proof {
                lemma_drop_low_decreases(idx);
                assert(c as int == crate::sums::sum_between(d, drop_low(idx) as int, idx as int));
                assert(i32::MIN <= crate::sums::sum_between(d, drop_low(idx) as int, range_max as int)
                    <= i32::MAX);
            }
            s = s + c;
            idx = idx & (idx - 1);
        }
        s
    }

    /// Sum over `[start, end)`, computed from two prefix queries exactly as
    /// the pair of walks the counters are laid out for.
    pub fn sum_range(&self, start: usize, end: usize) -> (s: i32)
        requires
            self.wf(),
            start <= end <= self.domain(),
        ensures
            s as int == crate::sums::sum_between(self.model(), start as int, end as int),
    {
        let sum1 = self.sum(end);
        if start == 0 {
            sum1
        } else {
            let sum2 = self.sum(start);
            proof {
                assert(i32::MIN <= crate::sums::sum_between(
                    self.model(),
                    start as int,
                    end as int,
                ) <= i32::MAX);
            }
            sum1 - sum2
        }
    }

    /// Binary-lifting order-statistic search: for a positive `query` over
    /// non-negative deltas, the largest index whose prefix sum stays below
    /// `query`; every strictly larger index in the domain reaches `query`.
    /// For `query <= 0` the result is zero.
    pub fn lower_bound(&self, query: i32) -> (r: usize)
        requires
            self.wf(),
            all_nonneg(self.model()),
        ensures
            r <= self.domain(),
            query <= 0 ==> r == 0,
            query > 0 ==> crate::sums::sum_prefix(self.model(), r as int) < query as int,
            query > 0 ==> forall|i: int|
                r < i <= self.domain() ==> crate::sums::sum_prefix(self.model(), i)
                    >= query as int,
    {
        if query <= 0 {
            return 0;
        }
        let ghost d = self.deltas@;
        let ghost q0 = query as int;
        let mut query = query;
        let mut k: usize = 1;
        proof {
            lemma_pow2_one();
        }
        while k <= self.len
            invariant
                self.wf(),
                is_pow2(k),
                k <= 2 * MAX_TREE_LEN,
            decreases 2 * self.len - k,
        {
            proof {
                lemma_pow2_double(k);
            }
            k = k * 2;
        }
        let mut cur: usize = 0;
        proof {
            lemma_zero_aligned(k);
        }
        while k > 0
            invariant
                self.wf(),
                d == self.deltas@,
                all_nonneg(d),
                cur <= self.len,
                k <= 2 * MAX_TREE_LEN,
                1 <= q0 <= i32::MAX,
                k >= 1 ==> is_pow2(k) && aligned_to(cur, k),
                k >= 1 ==> query as int == q0 - crate::sums::sum_prefix(d, cur as int),
                crate::sums::sum_prefix(d, cur as int) < q0,
                forall|i: int|
                    cur + k <= i <= d.len() && cur < i ==> crate::sums::sum_prefix(d, i) >= q0,
            decreases k,
        {
            proof {
                lemma_pow2_halve(k);
            }
            let k2 = k / 2;
            let nxt = cur + k2;
            if nxt <= self.len {
                let val = self.counters[nxt];
                proof {
                    if k2 >= 1 {
                        lemma_commit_step(cur, k2);
                        assert(val as int == crate::sums::sum_between(d, cur as int, nxt as int));
                        crate::sums::lemma_sum_prefix_monotonic(d, cur as int, nxt as int);
                    } else {
                        if cur >= 1 {
                            lemma_drop_low_decreases(cur);
                            crate::sums::lemma_sum_prefix_monotonic(
                                d,
                                drop_low(cur) as int,
                                cur as int,
                            );
                        }
                        assert(val >= 0);
                    }
                }
                if val < query {
                    query = query - val;
                    cur = nxt;
                    proof {
                        if k2 >= 1 {
                            assert(crate::sums::sum_prefix(d, cur as int) == q0 - query);
                        }
                    }
                } else {
                    proof {
                        if k2 >= 1 {
                            assert(crate::sums::sum_prefix(d, nxt as int) >= q0);
                            assert forall|i: int|
                                cur + k2 <= i <= d.len() && cur < i implies crate::sums::sum_prefix(
                                d,
                                i,
                            ) >= q0 by {
                                crate::sums::lemma_sum_prefix_monotonic(d, nxt as int, i);
                            }
                        }
                    }
                }
            }
            proof {
                if k2 >= 1 && aligned_to(cur, k) && k == 2 * k2 {
                    lemma_align_weaken(cur, k2);
                }
            }
            k = k2;
        }
        cur
    }
}

/// Hard ceiling on a set's capacity. Construction above it is refused outright:
/// it could only exhaust memory on malformed configuration.
pub const MAX_SET_CAPACITY: usize = 50_000_000;

/// How many members of `s` lie strictly below `v`: the rank of `v` in `s`.
pub open spec fn rank_in(s: Set<int>, v: int) -> int {
    s.filter(|u: int| u < v).len() as int
}

/// Counting the members of a zero-one sequence below `v` is its prefix sum at `v`.
proof fn lemma_rank_eq_prefix(d: Seq<int>, v: int)
    requires
        all_zero_one(d),
        0 <= v <= d.len(),
    ensures
        rank_in(member_set(d), v) == crate::sums::sum_prefix(d, v),
{
    lemma_members_below_count(d, v);
    assert(member_set(d).filter(|u: int| u < v) =~= members_below(d, v));
}

/// Zero-one deltas over a bounded domain never overflow the counters.
proof fn lemma_zero_one_fits(d: Seq<int>)
    requires
        all_zero_one(d),
        d.len() <= MAX_TREE_LEN,
    ensures
        FenwickTree::fits(d),
{
    assert forall|a: int, b: int| 0 <= a <= b <= d.len() implies i32::MIN
        <= #[trigger] crate::sums::sum_between(d, a, b) <= i32::MAX by {
        lemma_sum_between_bounds(d, a, b);
    }
}

/// A dynamic set of integers from a bounded domain `[0, capacity)`, stored as
/// zero-one deltas in a prefix-sum tree: membership, insertion, deletion,
/// order statistics and sampling in logarithmic time.
pub struct FenwickSet {
    inner: FenwickTree,
    num_elements: usize,
    max_val_excluded: usize,
}

impl View for FenwickSet {
    type V = Set<int>;

    /// The set of values currently present.
    closed spec fn view(&self) -> Set<int> {
        member_set(self.inner.model())
    }
}

impl FenwickSet {
    /// Exclusive upper bound of the value domain.
    pub closed spec fn cap(self) -> int {
        self.max_val_excluded as int
    }

    /// Cached count of present values.
    pub closed spec fn card(self) -> int {
        self.num_elements as int
    }

    /// The zero-one presence sequence over the domain.
    pub closed spec fn deltas(self) -> Seq<int> {
        self.inner.model()
    }

    /// Internal invariant: the tree is sound, every delta is zero or one, the
    /// domain matches the capacity, and the cached count matches the tree.
    pub closed spec fn wf(self) -> bool {
        &&& self.inner.wf()
        &&& self.max_val_excluded as int == self.inner.model().len() as int
        &&& self.max_val_excluded <= MAX_SET_CAPACITY
        &&& all_zero_one(self.inner.model())
        &&& self.num_elements as int == crate::sums::sum_prefix(
            self.inner.model(),
            self.inner.model().len() as int,
        )
    }

    /// Builds an empty set over `[0, n)`. Capacities above `MAX_SET_CAPACITY`
    /// are rejected at the interface, before anything is allocated.
    pub fn with_capacity(n: usize) -> (s: Self)
        requires
            n <= MAX_SET_CAPACITY,
        ensures
            s.wf(),
            s@ == Set::<int>::empty(),
            s.cap() == n,
            s.card() == 0,
    {
        let inner = FenwickTree::new(n);
        proof {
            lemma_sum_prefix_zero(inner.model(), n as int);
            assert(member_set(inner.model()) =~= Set::<int>::empty());
        }
        FenwickSet { inner, num_elements: 0, max_val_excluded: n }
    }

    /// Checked construction: `None` exactly when the requested capacity is
    /// above the ceiling; the refusal is decided before any allocation.
    pub fn try_with_capacity(n: usize) -> (r: Option<Self>)
        ensures
            r is Some <==> n <= MAX_SET_CAPACITY,
            r matches Some(s) ==> s.wf() && s@ == Set::<int>::empty() && s.cap() == n
                && s.card() == 0,
    {
        if n <= MAX_SET_CAPACITY {
            Some(Self::with_capacity(n))
        } else {
            None
        }
    }

    /// Builds a set with capacity `end`, pre-populated with every value of
    /// `[start, end)` and nothing else.
    pub fn from_range(start: usize, end: usize) -> (s: Self)
        requires
            end <= MAX_SET_CAPACITY,
        ensures
            s.wf(),
            s.cap() == end,
            s@ == vstd::set_lib::set_int_range(start as int, end as int),
            s.card() == if start <= end {
                end - start
            } else {
                0
            },
    {
        let mut s = Self::with_capacity(end);
        proof {
            assert(s@ =~= vstd::set_lib::set_int_range(start as int, start as int));
        }
        let mut i = start;
        while i < end
            invariant
                s.wf(),
                s.cap() == end,
                end <= MAX_SET_CAPACITY,
                start <= i,
                i <= end || i == start,
                s@ == vstd::set_lib::set_int_range(start as int, i as int),
                s.card() == i - start,
            decreases end - i,
        {
            s.insert(i);
            proof {
                assert(s@ =~= vstd::set_lib::set_int_range(start as int, i + 1 as int));
            }
            i = i + 1;
        }
        proof {
            if start >= end {
                assert(s@ =~= vstd::set_lib::set_int_range(start as int, end as int));
            }
        }
        s
    }

    /// Inserts `elem`: `true` when it was absent and in the domain, in which
    /// case it becomes present and the cardinality grows by one; otherwise a
    /// no-op returning `false`.
    pub fn insert(&mut self, elem: usize) -> (r: bool)
        requires
            old(self).wf(),
        ensures
            final(self).wf(),
            final(self).cap() == old(self).cap(),
            r == (elem < old(self).cap() && !old(self)@.contains(elem as int)),
            final(self)@ == if r {
                old(self)@.insert(elem as int)
            } else {
                old(self)@
            },
            final(self).card() == old(self).card() + if r {
                1int
            } else {
                0int
            },
    {
        let ghost d0 = self.inner.model();
        let ghost n = d0.len() as int;
        if elem >= self.max_val_excluded || self.contains(elem) {
            false
        } else {
            let ghost d1 = d0.update(elem as int, 1);
            proof {
                assert(d0[elem as int] == 0);
                assert(d1 == d0.update(elem as int, d0[elem as int] + 1));
                lemma_zero_one_fits(d1);
                // the count has room: position `elem` contributes nothing yet
                lemma_sum_between_bounds(d0, 0, elem as int);
                lemma_sum_between_bounds(d0, elem + 1, n);
                assert(crate::sums::sum_prefix(d0, elem + 1) == crate::sums::sum_prefix(
                    d0,
                    elem as int,
                ) + d0[elem as int]);
                assert(self.num_elements < self.max_val_excluded);
            }
            self.inner.add(elem, 1);
            self.num_elements = self.num_elements + 1;
            proof {
                lemma_sum_prefix_update(d0, elem as int, 1, n);
                assert(member_set(d1) =~= member_set(d0).insert(elem as int));
            }
            true
        }
    }

    /// Removes `elem`: `true` when it was present, in which case it becomes
    /// absent and the cardinality shrinks by one; otherwise (out of domain,
    /// absent, or the set empty) a no-op returning `false`.
    pub fn remove(&mut self, elem: usize) -> (r: bool)
        requires
            old(self).wf(),
        ensures
            final(self).wf(),
            final(self).cap() == old(self).cap(),
            r == (elem < old(self).cap() && old(self)@.contains(elem as int)),
            final(self)@ == if r {
                old(self)@.remove(elem as int)
            } else {
                old(self)@
            },
            final(self).card() == old(self).card() - if r {
                1int
            } else {
                0int
            },
    {
        let ghost d0 = self.inner.model();
        let ghost n = d0.len() as int;
        proof {
            if elem < self.max_val_excluded && member_set(d0).contains(elem as int) {
                lemma_sum_between_bounds(d0, 0, elem as int);
                lemma_sum_between_bounds(d0, elem + 1, n);
                assert(crate::sums::sum_prefix(d0, elem + 1) == crate::sums::sum_prefix(
                    d0,
                    elem as int,
                ) + d0[elem as int]);
                assert(self.num_elements >= 1);
            }
        }
        if elem >= self.max_val_excluded || !self.contains(elem) || self.num_elements == 0 {
            false
        } else {
            let ghost d1 = d0.update(elem as int, 0);
            proof {
                assert(d0[elem as int] == 1);
                assert(d1 == d0.update(elem as int, d0[elem as int] + (-1)));
                lemma_zero_one_fits(d1);
            }
            self.inner.add(elem, -1);
            self.num_elements = self.num_elements - 1;
            proof {
                lemma_sum_prefix_update(d0, elem as int, 0, n);
                assert(member_set(d1) =~= member_set(d0).remove(elem as int));
            }
            true
        }
    }

    /// Whether `elem` is present; values outside the domain never are.
    pub fn contains(&self, elem: usize) -> (r: bool)
        requires
            self.wf(),
        ensures
            r == self@.contains(elem as int),
    {
        if elem >= self.max_val_excluded {
            return false;
        }
        let s = self.inner.sum_range(elem, elem + 1);
        proof {
            assert(crate::sums::sum_prefix(self.deltas(), elem + 1) == crate::sums::sum_prefix(
                self.deltas(),
                elem as int,
            ) + self.deltas()[elem as int]);
        }
        s == 1
    }

    /// The exclusive upper bound of the domain fixed at construction.
    pub fn capacity(&self) -> (r: usize)
        requires
            self.wf(),
        ensures
            r as int == self.cap(),
    {
        self.max_val_excluded
    }

    /// How many values are present.
    pub fn len(&self) -> (r: usize)
        requires
            self.wf(),
        ensures
            r as int == self.card(),
            r as int == self@.len(),
    {
        proof {
            lemma_member_set_count(self.deltas());
        }
        self.num_elements
    }

    /// The `n`-th smallest present value (0-indexed); `None` when fewer than
    /// `n + 1` values are present.
    pub fn nth(&self, n: usize) -> (r: Option<usize>)
        requires
            self.wf(),
        ensures
            r matches Some(v) ==> n < self@.len() && self@.contains(v as int) && rank_in(
                self@,
                v as int,
            ) == n,
            r is None ==> n >= self@.len(),
    {
        let ghost d = self.deltas();
        let ghost dom = d.len() as int;
        proof {
            lemma_member_set_count(d);
        }
        if n >= self.num_elements {
            return None;
        }
        proof {
            lemma_zero_one_nonneg(d);
            lemma_sum_between_bounds(d, 0, dom);
            assert(n < MAX_SET_CAPACITY);
        }
        let res = self.inner.lower_bound(n as i32 + 1);
        proof {
            assert(crate::sums::sum_prefix(d, dom) >= n + 1);
            assert(res < self.max_val_excluded);
            assert(crate::sums::sum_prefix(d, res + 1) >= n + 1);
            assert(crate::sums::sum_prefix(d, res + 1) == crate::sums::sum_prefix(d, res as int)
                + d[res as int]);
            assert(d[res as int] == 1 && crate::sums::sum_prefix(d, res as int) == n as int);
            lemma_rank_eq_prefix(d, res as int);
        }
        if res >= self.max_val_excluded {
            None
        } else {
            Some(res)
        }
    }

    /// One present value drawn uniformly (through the supplied source) from
    /// the present values; `None` exactly when the set is empty.
    pub fn select<R: RandomSource>(&self, rng: &mut R) -> (r: Option<usize>)
        requires
            self.wf(),
        ensures
            r matches Some(v) ==> self@.len() > 0 && self@.contains(v as int),
            r is None ==> self@.len() == 0,
    {
        proof {
            lemma_member_set_count(self.deltas());
        }
        if self.num_elements == 0 {
            return None;
        }
        let num = rng.range_below(self.num_elements);
        self.nth(num)
    }
}

impl FenwickSet {
    /// Borrowing traversal: a cursor over the present values in ascending
    /// order; the set stays usable afterwards.
    pub fn iter(&self) -> (it: FwsIter<'_>)
        requires
            self.wf(),
        ensures
            it.wf(),
            it.deltas() == self.deltas(),
            it.elems() == self@,
            it.position() == 0,
    {
        FwsIter { fwt: &self.inner, current: 0, before: 0 }
    }

    /// All present values, smallest first: one full traversal, collected.
    pub fn members(&self) -> (v: Vec<usize>)
        requires
            self.wf(),
        ensures
            v@.map_values(|x: usize| x as int) == ascending_members(self.deltas(), 0),
    {
        let ghost d = self.deltas();
        let mut v: Vec<usize> = Vec::new();
        let mut it = self.iter();
        let mut done = false;
        while !done
            invariant
                it.wf(),
                it.deltas() == d,
                all_zero_one(d),
                0 <= it.position() <= d.len(),
                v@.map_values(|x: usize| x as int) + ascending_members(d, it.position())
                    == ascending_members(d, 0),
                done ==> ascending_members(d, it.position()) == Seq::<int>::empty(),
            decreases d.len() - it.position() + if done {
                0int
            } else {
                1int
            },
        {
            let ghost p = it.position();
            let ghost vm0 = v@.map_values(|x: usize| x as int);
            match it.next() {
                Some(x) => {
                    proof {
                        lemma_first_member_from(d, p);
                        crate::sums::lemma_ascending_members_step(d, p);
                    }
                    v.push(x);
                    proof {
                        assert(v@.map_values(|x: usize| x as int) =~= vm0.push(x as int));
                        assert(v@.map_values(|x: usize| x as int) + ascending_members(
                            d,
                            it.position(),
                        ) =~= ascending_members(d, 0));
                    }
                },
                None => {
                    proof {
                        lemma_first_member_from(d, p);
                        crate::sums::lemma_ascending_members_step(d, p);
                    }
                    done = true;
                },
            }
        }
        proof {
            assert(v@.map_values(|x: usize| x as int) =~= ascending_members(d, 0));
        }
        v
    }

    /// Consuming traversal: the cursor takes the set's storage, so the set is
    /// gone afterwards; it yields the present values in ascending order.
    pub fn into_iter(self) -> (it: FwsIntoIter)
        requires
            self.wf(),
        ensures
            it.wf(),
            it.deltas() == self.deltas(),
            it.elems() == self@,
            it.position() == 0,
    {
        FwsIntoIter { fwt: self.inner, current: 0, before: 0 }
    }
}

/// Owning cursor over a set's present values, ascending.
pub struct FwsIntoIter {
    fwt: FenwickTree,
    current: usize,
    before: i32,
}

/// Borrowing cursor over a set's present values, ascending.
pub struct FwsIter<'a> {
    fwt: &'a FenwickTree,
    current: usize,
    before: i32,
}

impl FwsIntoIter {
    /// The cursor walks a sound tree of zero-one deltas and carries the prefix
    /// sum at its current position.
    pub closed spec fn wf(self) -> bool {
        &&& self.fwt.wf()
        &&& all_zero_one(self.fwt.model())
        &&& self.current <= self.fwt.model().len()
        &&& self.before as int == crate::sums::sum_prefix(self.fwt.model(), self.current as int)
    }

    /// The deltas being traversed.
    pub closed spec fn deltas(self) -> Seq<int> {
        self.fwt.model()
    }

    /// The values being traversed.
    pub closed spec fn elems(self) -> Set<int> {
        member_set(self.fwt.model())
    }

    /// The next position the traversal will look at.
    pub closed spec fn position(self) -> int {
        self.current as int
    }

    /// The next present value at or after the cursor, in ascending order.
    pub fn next(&mut self) -> (r: Option<usize>)
        requires
            old(self).wf(),
        ensures
            final(self).wf(),
            final(self).deltas() == old(self).deltas(),
            next_step(old(self).deltas(), old(self).position(), final(self).position(), r),
    {
        fws_iter_next(&self.fwt, &mut self.current, &mut self.before)
    }
}

impl<'a> FwsIter<'a> {
    /// The cursor walks a sound tree of zero-one deltas and carries the prefix
    /// sum at its current position.
    pub closed spec fn wf(self) -> bool {
        &&& self.fwt.wf()
        &&& all_zero_one(self.fwt.model())
        &&& self.current <= self.fwt.model().len()
        &&& self.before as int == crate::sums::sum_prefix(self.fwt.model(), self.current as int)
    }

    /// The deltas being traversed.
    pub closed spec fn deltas(self) -> Seq<int> {
        self.fwt.model()
    }

    /// The values being traversed.
    pub closed spec fn elems(self) -> Set<int> {
        member_set(self.fwt.model())
    }

    /// The next position the traversal will look at.
    pub closed spec fn position(self) -> int {
        self.current as int
    }

    /// The next present value at or after the cursor, in ascending order.
    pub fn next(&mut self) -> (r: Option<usize>)
        requires
            old(self).wf(),
        ensures
            final(self).wf(),
            final(self).deltas() == old(self).deltas(),
            next_step(old(self).deltas(), old(self).position(), final(self).position(), r),
    {
        fws_iter_next(self.fwt, &mut self.current, &mut self.before)
    }
}

/// What one step of a traversal over `d` does, from position `c0` to `c1`: it
/// yields the first member at or after `c0` and stops just past it, or yields
/// nothing and stops at the end when no member is left.
pub open spec fn next_step(d: Seq<int>, c0: int, c1: int, r: Option<usize>) -> bool {
    if first_member_from(d, c0) < d.len() {
        r == Some(first_member_from(d, c0) as usize) && c1 == first_member_from(d, c0) + 1
    } else {
        r is None && c1 == d.len()
    }
}

/// Advances a cursor over `fwt`: scans forward from `*current`, yielding the
/// next position whose delta is one, and keeps `*before` equal to the prefix
/// sum at the position reached.
pub fn fws_iter_next(fwt: &FenwickTree, current: &mut usize, before: &mut i32) -> (r: Option<
    usize,
>)
    requires
        fwt.wf(),
        all_zero_one(fwt.model()),
        *old(current) <= fwt.model().len(),
        *old(before) as int == crate::sums::sum_prefix(fwt.model(), *old(current) as int),
    ensures
        *final(current) <= fwt.model().len(),
        *final(before) as int == crate::sums::sum_prefix(fwt.model(), *final(current) as int),
        next_step(fwt.model(), *old(current) as int, *final(current) as int, r),
{
    let ghost d = fwt.model();
    let ghost c0 = *current as int;
    proof {
        lemma_first_member_from(d, c0);
    }
    while *current < fwt.len
        invariant
            fwt.wf(),
            d == fwt.model(),
            all_zero_one(d),
            c0 == *old(current) as int,
            c0 <= *current as int <= d.len(),
            *before as int == crate::sums::sum_prefix(d, *current as int),
            first_member_from(d, c0) == first_member_from(d, *current as int),
        decreases d.len() - *current,
    {
        *current = *current + 1;
        let sum = fwt.sum(*current);
        proof {
            lemma_sum_between_bounds(d, 0, *current as int);
            lemma_sum_between_bounds(d, 0, *current - 1);
            assert(crate::sums::sum_prefix(d, *current as int) == crate::sums::sum_prefix(
                d,
                *current - 1,
            ) + d[*current - 1]);
        }
        let diff = sum - *before;
        *before = sum;
        if diff == 1 {
            proof {
                assert(first_member_from(d, *current - 1) == *current - 1);
            }
            return Some(*current - 1);
        }
    }
    None
}

/// A fresh insert makes `v` present and grows the cardinality by exactly one,
/// and a second insert of the same value changes nothing.
pub proof fn lemma_insert_effect(s: Set<int>, v: int)
    requires
        s.finite(),
        !s.contains(v),
    ensures
        s.insert(v).contains(v),
        s.insert(v).len() == s.len() + 1,
        s.insert(v).insert(v) == s.insert(v),
{
    vstd::set::axiom_set_insert_len(s, v);
    assert(s.insert(v).insert(v) =~= s.insert(v));
}

/// Removing a value inserted into `s` restores `s`: the value is absent again
/// and the cardinality is back down by one. Removing a value absent from `s`
/// changes nothing at all.
pub proof fn lemma_remove_effect(s: Set<int>, v: int)
    requires
        s.finite(),
        !s.contains(v),
    ensures
        s.insert(v).remove(v) == s,
        !s.insert(v).remove(v).contains(v),
        s.insert(v).remove(v).len() == s.insert(v).len() - 1,
        s.remove(v) == s,
{
    vstd::set::axiom_set_insert_len(s, v);
    assert(s.insert(v).remove(v) =~= s);
    assert(s.remove(v) =~= s);
}

/// Order statistics agree with ascending traversal: a full traversal yields
/// exactly as many values as the set has members, and its `k`-th value is a
/// member with exactly `k` members below it — the characterization `nth(k)`
/// is specified by.
pub proof fn lemma_nth_matches_iteration(d: Seq<int>, k: int)
    requires
        all_zero_one(d),
        0 <= k < ascending_members(d, 0).len(),
    ensures
        ascending_members(d, 0).len() == member_set(d).len(),
        ({
            let v = ascending_members(d, 0)[k];
            member_set(d).contains(v) && rank_in(member_set(d), v) == k
        }),
{
    lemma_member_set_count(d);
    lemma_ascending_members_len(d, 0);
    lemma_ascending_members_index(d, 0, k);
    lemma_rank_eq_prefix(d, ascending_members(d, 0)[k]);
}

/// Rank identifies a member: two members of the set with the same rank are
/// the same value, so the `k`-th smallest member is unique.
pub proof fn lemma_rank_identifies(d: Seq<int>, v1: int, v2: int)
    requires
        all_zero_one(d),
        member_set(d).contains(v1),
        member_set(d).contains(v2),
        rank_in(member_set(d), v1) == rank_in(member_set(d), v2),
    ensures
        v1 == v2,
{
    lemma_rank_eq_prefix(d, v1);
    lemma_rank_eq_prefix(d, v2);
    crate::sums::lemma_prefix_identifies_member(d, v1, v2);
}

impl Default for FenwickSet {
    /// The default set is empty with a small domain of ten values.
    fn default() -> (s: Self)
        ensures
            s.wf(),
            s@ == Set::<int>::empty(),
            s.cap() == 10,
    {
        FenwickSet::with_capacity(10)
    }
}

} // verus!
