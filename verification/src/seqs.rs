//! Shared lemmas about sequences used across the crate.

use vstd::prelude::*;

verus! {

/// Filtering a sequence extended by one element keeps the filtered
/// prefix and appends the new element exactly when it satisfies the
/// predicate.
pub proof fn lemma_filter_push<A>(s: Seq<A>, pred: spec_fn(A) -> bool, x: A)
    ensures
        s.push(x).filter(pred) == if pred(x) {
            s.filter(pred).push(x)
        } else {
            s.filter(pred)
        },
{
    reveal(Seq::filter);
    assert(s.push(x).drop_last() =~= s);
    assert(s.push(x).last() == x);
}

/// Pushing keeps every element present, and adds the new one.
pub proof fn lemma_push_preserves_contains<A>(s: Seq<A>, x: A)
    ensures
        forall|y: A| s.contains(y) ==> #[trigger] s.push(x).contains(y),
        s.push(x).contains(x),
{
    assert(s.push(x)[s.len() as int] == x);
    assert forall|y: A| s.contains(y) implies s.push(x).contains(y) by {
        let i = choose|i: int| 0 <= i < s.len() && s[i] == y;
        assert(s.push(x)[i] == y);
    }
}

/// Dropping the last element keeps every other element present.
pub proof fn lemma_drop_last_contains<A>(s: Seq<A>)
    requires
        s.len() > 0,
    ensures
        forall|y: A|
            s.contains(y) && y != s.last() ==> #[trigger] s.drop_last().contains(y),
{
    assert forall|y: A| s.contains(y) && y != s.last() implies s.drop_last().contains(y) by {
        let i = choose|i: int| 0 <= i < s.len() && s[i] == y;
        assert(i != s.len() - 1);
        assert(s.drop_last()[i] == y);
    }
}

/// The sum of the entries of a sequence of integers.
pub open spec fn sum_seq(s: Seq<int>) -> int
    decreases s.len(),
{
    if s.len() == 0 {
        0
    } else {
        sum_seq(s.drop_last()) + s.last()
    }
}

/// In a sequence of nonnegative entries, every entry is at most the sum.
pub proof fn lemma_sum_bounds_element(s: Seq<int>, i: int)
    requires
        0 <= i < s.len(),
        forall|j: int| 0 <= j < s.len() ==> s[j] >= 0,
    ensures
        s[i] <= sum_seq(s),
        sum_seq(s) >= 0,
    decreases s.len(),
{
    if s.len() > 0 {
        if i == s.len() - 1 {
            lemma_sum_nonneg(s.drop_last());
        } else {
            lemma_sum_bounds_element(s.drop_last(), i);
        }
    }
}

/// The sum of a sequence of nonnegative entries is nonnegative.
pub proof fn lemma_sum_nonneg(s: Seq<int>)
    requires
        forall|j: int| 0 <= j < s.len() ==> s[j] >= 0,
    ensures
        sum_seq(s) >= 0,
    decreases s.len(),
{
    if s.len() > 0 {
        lemma_sum_nonneg(s.drop_last());
    }
}

/// A sequence of entries between two pointwise bounds has a sum
/// between the scaled bounds.
pub proof fn lemma_sum_pointwise_bound(s: Seq<int>, b: int)
    requires
        forall|j: int| 0 <= j < s.len() ==> 0 <= #[trigger] s[j] <= b,
        0 <= b,
    ensures
        0 <= sum_seq(s) <= s.len() * b,
    decreases s.len(),
{
    if s.len() > 0 {
        assert(forall|j: int|
            0 <= j < s.drop_last().len() ==> 0 <= #[trigger] s.drop_last()[j] <= b);
        lemma_sum_pointwise_bound(s.drop_last(), b);
        assert(s.len() * b == (s.len() - 1) * b + b) by (nonlinear_arith);
    }
}

/// Updating one entry changes the sum by the difference at that entry.
pub proof fn lemma_sum_update(s: Seq<int>, i: int, v: int)
    requires
        0 <= i < s.len(),
    ensures
        sum_seq(s.update(i, v)) == sum_seq(s) - s[i] + v,
    decreases s.len(),
{
    if s.len() > 0 {
        if i == s.len() - 1 {
            assert(s.update(i, v).drop_last() =~= s.drop_last());
        } else {
            assert(s.update(i, v).drop_last() =~= s.drop_last().update(i, v));
            lemma_sum_update(s.drop_last(), i, v);
        }
    }
}

} // verus!
