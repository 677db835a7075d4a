//! Order statistics and sums over sequences of latency samples.
//!
//! This module says what the sum, the extremes, the ascending order and the
//! median of a sequence of samples are, proves how they relate, and sorts a
//! vector in place into that ascending order.

use vstd::multiset::*;
use vstd::prelude::*;
use vstd::relations::*;
use vstd::seq_lib::*;

verus! {

/// The order by which samples are ranked: plain `<=` on cycle counts.
pub open spec fn sample_leq() -> spec_fn(u64, u64) -> bool {
    |a: u64, b: u64| a <= b
}

/// The sum of all samples of `s`, as a natural number (it never wraps).
pub open spec fn total(s: Seq<u64>) -> nat
    decreases s.len(),
{
    if s.len() == 0 {
        0
    } else {
        total(s.drop_last()) + s.last() as nat
    }
}

/// Whether `s` never decreases from one index to a later one.
pub open spec fn is_ascending(s: Seq<u64>) -> bool {
    forall|i: int, j: int| 0 <= i <= j < s.len() ==> s[i] <= s[j]
}

/// The samples of `s` in ascending order.
pub open spec fn ascending(s: Seq<u64>) -> Seq<u64> {
    s.sort_by(sample_leq())
}

/// The rank-based median of `s`: the sample at index `len / 2` of the
/// ascending order, which for an even length is the upper of the two middle
/// samples. The median of no samples is 0.
pub open spec fn median(s: Seq<u64>) -> u64 {
    if s.len() == 0 {
        0
    } else {
        ascending(s)[s.len() as int / 2]
    }
}

/// The smallest sample of `s`, 0 if there is none.
pub open spec fn lowest(s: Seq<u64>) -> u64
    decreases s.len(),
{
    if s.len() == 0 {
        0
    } else if s.len() == 1 {
        s[0]
    } else if s.last() < lowest(s.drop_last()) {
        s.last()
    } else {
        lowest(s.drop_last())
    }
}

/// The largest sample of `s`, 0 if there is none.
pub open spec fn highest(s: Seq<u64>) -> u64
    decreases s.len(),
{
    if s.len() == 0 {
        0
    } else if s.len() == 1 {
        s[0]
    } else if s.last() > highest(s.drop_last()) {
        s.last()
    } else {
        highest(s.drop_last())
    }
}

/// How many samples of `s` are strictly below `v`.
pub open spec fn count_below(s: Seq<u64>, v: u64) -> nat
    decreases s.len(),
{
    if s.len() == 0 {
        0
    } else if s.last() < v {
        count_below(s.drop_last(), v) + 1
    } else {
        count_below(s.drop_last(), v)
    }
}

/// How many samples of `s` are at most `v`.
pub open spec fn count_at_most(s: Seq<u64>, v: u64) -> nat
    decreases s.len(),
{
    if s.len() == 0 {
        0
    } else if s.last() <= v {
        count_at_most(s.drop_last(), v) + 1
    } else {
        count_at_most(s.drop_last(), v)
    }
}

/// `<=` on samples is a total order.
pub proof fn lemma_sample_leq_total()
    ensures
        total_ordering(sample_leq()),
{
    let leq = sample_leq();
    assert(reflexive(leq));
    assert(antisymmetric(leq));
    assert(transitive(leq));
    assert(strongly_connected(leq));
}

/// The ascending order of `s` is ascending, has the length of `s` and holds
/// each sample as often as `s` does.
pub proof fn lemma_ascending_is_sorted_rearrangement(s: Seq<u64>)
    ensures
        is_ascending(ascending(s)),
        ascending(s).len() == s.len(),
        ascending(s).to_multiset() == s.to_multiset(),
{
    let a = ascending(s);
    lemma_sample_leq_total();
    s.lemma_sort_by_ensures(sample_leq());
    to_multiset_len(s);
    to_multiset_len(a);
    assert forall|i: int, j: int| 0 <= i <= j < a.len() implies a[i] <= a[j] by {
        if i < j {
            assert(sample_leq()(a[i], a[j]));
        }
    }
}

/// There is only one ascending rearrangement of `s`: whatever is ascending
/// and holds each sample as often as `s` does is `ascending(s)`.
pub proof fn lemma_ascending_is_unique(a: Seq<u64>, s: Seq<u64>)
    requires
        is_ascending(a),
        a.to_multiset() == s.to_multiset(),
    ensures
        a == ascending(s),
{
    lemma_sample_leq_total();
    lemma_ascending_is_sorted_rearrangement(s);
    let b = ascending(s);
    assert(sorted_by(a, sample_leq()));
    assert(sorted_by(b, sample_leq())) by {
        assert forall|i: int, j: int| 0 <= i < j < b.len() implies #[trigger] sample_leq()(
            b[i],
            b[j],
        ) by {
            assert(b[i] <= b[j]);
        }
    }
    lemma_sorted_unique(a, b, sample_leq());
}

/// The smallest and the largest sample are samples, and every sample lies
/// between them.
pub proof fn lemma_extremes_bound_samples(s: Seq<u64>)
    requires
        s.len() > 0,
    ensures
        s.contains(lowest(s)),
        s.contains(highest(s)),
        forall|i: int| 0 <= i < s.len() ==> lowest(s) <= #[trigger] s[i] <= highest(s),
    decreases s.len(),
{
    if s.len() == 1 {
        assert(s[0] == lowest(s));
        assert(s[0] == highest(s));
    } else {
        let front = s.drop_last();
        lemma_extremes_bound_samples(front);
        assert(s.last() == s[s.len() - 1]);
        let low = choose|i: int| 0 <= i < front.len() && front[i] == lowest(front);
        assert(s[low] == lowest(front));
        let high = choose|i: int| 0 <= i < front.len() && front[i] == highest(front);
        assert(s[high] == highest(front));
        assert forall|i: int| 0 <= i < s.len() implies lowest(s) <= #[trigger] s[i] <= highest(
            s,
        ) by {
            if i < front.len() {
                assert(front[i] == s[i]);
            }
        }
    }
}

/// A sum of samples that all lie between `low` and `high` lies between that
/// many times `low` and that many times `high`.
pub proof fn lemma_total_between(s: Seq<u64>, low: u64, high: u64)
    requires
        forall|i: int| 0 <= i < s.len() ==> low <= #[trigger] s[i] <= high,
    ensures
        low * s.len() <= total(s) <= high * s.len(),
    decreases s.len(),
{
    if s.len() > 0 {
        let front = s.drop_last();
        assert forall|i: int| 0 <= i < front.len() implies low <= #[trigger] front[i] <= high by {
            assert(front[i] == s[i]);
        }
        lemma_total_between(front, low, high);
        let n = front.len() as int;
        assert(low * (n + 1) == low * n + low) by (nonlinear_arith);
        assert(high * (n + 1) == high * n + high) by (nonlinear_arith);
        assert(low <= s[s.len() - 1] <= high);
    }
}

/// The mean of a window lies between its smallest and its largest sample:
/// the sum lies between the number of samples times either.
pub proof fn lemma_mean_within_extremes(s: Seq<u64>)
    requires
        s.len() > 0,
    ensures
        lowest(s) * s.len() <= total(s) <= highest(s) * s.len(),
{
    lemma_extremes_bound_samples(s);
    lemma_total_between(s, lowest(s), highest(s));
}

/// The median of a window that is not empty is one of its samples, and so
/// lies between the smallest and the largest.
pub proof fn lemma_median_is_a_sample(s: Seq<u64>)
    requires
        s.len() > 0,
    ensures
        s.contains(median(s)),
        lowest(s) <= median(s) <= highest(s),
{
    let a = ascending(s);
    lemma_ascending_is_sorted_rearrangement(s);
    let middle = s.len() as int / 2;
    assert(a.contains(a[middle]));
    a.to_multiset_ensures();
    s.to_multiset_ensures();
    assert(a.to_multiset().count(a[middle]) > 0);
    assert(s.to_multiset().count(a[middle]) > 0);
    assert(s.contains(median(s)));
    lemma_extremes_bound_samples(s);
    let at = choose|i: int| 0 <= i < s.len() && s[i] == median(s);
    assert(lowest(s) <= s[at] <= highest(s));
}

/// Taking one sample out lowers the counts by what that sample counted for.
proof fn lemma_counts_without(s: Seq<u64>, at: int, v: u64)
    requires
        0 <= at < s.len(),
    ensures
        count_below(s, v) == count_below(s.remove(at), v) + if s[at] < v {
            1nat
        } else {
            0nat
        },
        count_at_most(s, v) == count_at_most(s.remove(at), v) + if s[at] <= v {
            1nat
        } else {
            0nat
        },
    decreases s.len(),
{
    if at == s.len() - 1 {
        assert(s.remove(at) == s.drop_last());
    } else {
        lemma_counts_without(s.drop_last(), at, v);
        assert(s.remove(at).drop_last() == s.drop_last().remove(at));
        assert(s.remove(at).last() == s.last());
    }
}

/// The counts depend on how often each sample occurs, not on the order: two
/// sequences that hold each sample equally often count the same.
pub proof fn lemma_counts_ignore_order(a: Seq<u64>, b: Seq<u64>, v: u64)
    requires
        a.to_multiset() == b.to_multiset(),
    ensures
        count_below(a, v) == count_below(b, v),
        count_at_most(a, v) == count_at_most(b, v),
    decreases a.len(),
{
    to_multiset_len(a);
    to_multiset_len(b);
    if a.len() > 0 {
        let x = a.last();
        a.to_multiset_ensures();
        b.to_multiset_ensures();
        assert(a.contains(x));
        assert(a.to_multiset().count(x) > 0);
        assert(b.contains(x));
        let at = choose|i: int| 0 <= i < b.len() && b[i] == x;
        to_multiset_remove(a, a.len() - 1);
        to_multiset_remove(b, at);
        assert(a.remove(a.len() - 1) == a.drop_last());
        lemma_counts_ignore_order(a.drop_last(), b.remove(at), v);
        lemma_counts_without(b, at, v);
    }
}

/// In an ascending sequence, the samples below the one at index `k` all
/// stand before it, and the samples up to index `k` are all at most it.
proof fn lemma_counts_of_ascending(a: Seq<u64>, k: int, n: int)
    requires
        is_ascending(a),
        0 <= k < a.len(),
        0 <= n <= a.len(),
    ensures
        count_below(a.take(n), a[k]) <= if n <= k {
            n
        } else {
            k
        },
        count_at_most(a.take(n), a[k]) >= if n <= k + 1 {
            n
        } else {
            k + 1
        },
    decreases n,
{
    if n > 0 {
        lemma_counts_of_ascending(a, k, n - 1);
        assert(a.take(n).drop_last() == a.take(n - 1));
        assert(a.take(n).last() == a[n - 1]);
    }
}

/// The median splits the window by rank: at most half of the samples are
/// below it, and more than half are at most it.
pub proof fn lemma_median_splits(s: Seq<u64>)
    requires
        s.len() > 0,
    ensures
        count_below(s, median(s)) <= s.len() / 2 < count_at_most(s, median(s)),
{
    let a = ascending(s);
    let middle = s.len() as int / 2;
    lemma_ascending_is_sorted_rearrangement(s);
    lemma_counts_of_ascending(a, middle, a.len() as int);
    assert(a.take(a.len() as int) == a);
    lemma_counts_ignore_order(a, s, a[middle]);
}

/// Only one value has a given rank: two values that each have at most `k`
/// samples below them and more than `k` samples at most them are the same.
pub proof fn lemma_rank_decides(s: Seq<u64>, k: nat, v: u64, w: u64)
    requires
        count_below(s, v) <= k < count_at_most(s, v),
        count_below(s, w) <= k < count_at_most(s, w),
    ensures
        v == w,
{
    if v < w {
        lemma_counts_grow(s, v, w);
    } else if w < v {
        lemma_counts_grow(s, w, v);
    }
}

/// What is at most a smaller value is below a larger one.
proof fn lemma_counts_grow(s: Seq<u64>, smaller: u64, larger: u64)
    requires
        smaller < larger,
    ensures
        count_at_most(s, smaller) <= count_below(s, larger),
    decreases s.len(),
{
    if s.len() > 0 {
        lemma_counts_grow(s.drop_last(), smaller, larger);
    }
}

/// Exchanging the samples at two indices changes no sample's number of
/// occurrences.
pub proof fn lemma_exchange_keeps_samples(s: Seq<u64>, i: int, j: int)
    requires
        0 <= i < s.len(),
        0 <= j < s.len(),
    ensures
        s.update(i, s[j]).update(j, s[i]).to_multiset() == s.to_multiset(),
{
    broadcast use group_multiset_axioms;

    let mid = s.update(i, s[j]);
    let end = mid.update(j, s[i]);
    s.to_multiset_ensures();
    to_multiset_update(s, i, s[j]);
    to_multiset_update(mid, j, s[i]);
    assert(s.contains(s[i]));
    assert(s.contains(s[j]));
    assert forall|x: u64| end.to_multiset().count(x) == s.to_multiset().count(x) by {
        let m = s.to_multiset();
        assert(mid.to_multiset() == m.insert(s[j]).remove(s[i]));
        assert(mid[j] == s[j]);
        assert(end.to_multiset() == mid.to_multiset().insert(s[i]).remove(s[j]));
    }
    assert(end.to_multiset() =~= s.to_multiset());
}

/// Sorts `v` in place into ascending order.
pub fn sort_samples(v: &mut Vec<u64>)
    ensures
        final(v)@ == ascending(old(v)@),
{
    let ghost orig = v@;
    let n = v.len();
    let mut i: usize = 1;
    while i < n
        invariant
            n == v.len(),
            1 <= i,
            v@.to_multiset() == orig.to_multiset(),
            forall|a: int, b: int| 0 <= a <= b < i && b < n ==> v@[a] <= v@[b],
        decreases n - i,
    {
        let mut j: usize = i;
        while j > 0 && v[j - 1] > v[j]
            invariant
                j <= i < n,
                n == v.len(),
                v@.to_multiset() == orig.to_multiset(),
                forall|a: int, b: int| 0 <= a <= b <= i && a != j && b != j ==> v@[a] <= v@[b],
                forall|b: int| j < b <= i ==> v@[j as int] <= v@[b],
            decreases j,
        {
            let ghost before = v@;
            let lower = v[j - 1];
            let upper = v[j];
            v[j - 1] = upper;
            v[j] = lower;
            proof {
                lemma_exchange_keeps_samples(before, j - 1, j as int);
            }
            j = j - 1;
        }
        i = i + 1;
    }
    proof {
        assert(is_ascending(v@));
        lemma_ascending_is_unique(v@, orig);
    }
}

} // verus!
