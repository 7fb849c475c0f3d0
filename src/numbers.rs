//! The storage-independent logic of a favourite-number collection: sorting,
//! the minimum and the running maximum, over plain sequences of `u64`.

use vstd::prelude::*;
use vstd::relations::{sorted_by, total_ordering};
use vstd::seq_lib::{group_to_multiset_ensures, lemma_multiset_commutative, lemma_sorted_unique};

verus! {

broadcast use group_to_multiset_ensures, vstd::multiset::group_multiset_axioms;

/// Every element is at most each element after it.
pub open spec fn is_sorted(s: Seq<u64>) -> bool {
    forall|i: int, j: int| 0 <= i < j < s.len() ==> s[i] <= s[j]
}

/// `r` holds the values of `s`, with their multiplicities, in non-decreasing order.
pub open spec fn is_sorting_of(r: Seq<u64>, s: Seq<u64>) -> bool {
    &&& is_sorted(r)
    &&& r.to_multiset() == s.to_multiset()
}

/// `m` is the least value of `s`, or `0` when `s` is empty.
pub open spec fn is_min_or_zero(m: u64, s: Seq<u64>) -> bool {
    if s.len() == 0 {
        m == 0
    } else {
        &&& s.contains(m)
        &&& forall|i: int| 0 <= i < s.len() ==> m <= s[i]
    }
}

/// The larger of two values.
pub open spec fn larger(a: u64, b: u64) -> u64 {
    if a < b {
        b
    } else {
        a
    }
}

/// The greatest value of `s`, or `0` when `s` is empty.
pub open spec fn max_or_zero(s: Seq<u64>) -> u64
    decreases s.len(),
{
    if s.len() == 0 {
        0
    } else {
        larger(max_or_zero(s.drop_last()), s.last())
    }
}

spec fn leq_u64() -> spec_fn(u64, u64) -> bool {
    |a: u64, b: u64| a <= b
}

proof fn lemma_sorted_by_leq(s: Seq<u64>)
    requires
        is_sorted(s),
    ensures
        sorted_by(s, leq_u64()),
        total_ordering(leq_u64()),
{
}

/// Two sortings of one sequence are the same sequence: the result of a sort
/// is fixed by the values it is given.
pub proof fn lemma_sorting_unique(s: Seq<u64>, a: Seq<u64>, b: Seq<u64>)
    requires
        is_sorting_of(a, s),
        is_sorting_of(b, s),
    ensures
        a == b,
{
    lemma_sorted_by_leq(a);
    lemma_sorted_by_leq(b);
    lemma_sorted_unique(a, b, leq_u64());
}

/// Sorting a sorted result again gives it back unchanged.
pub proof fn lemma_sort_idempotent(s: Seq<u64>, once: Seq<u64>, twice: Seq<u64>)
    requires
        is_sorting_of(once, s),
        is_sorting_of(twice, once),
    ensures
        twice == once,
{
    lemma_sorting_unique(once, twice, once);
}

/// A sequence of at most one value sorts to itself: the empty sequence to the
/// empty sequence, `[x]` to `[x]`.
pub proof fn lemma_sort_short(s: Seq<u64>, r: Seq<u64>)
    requires
        s.len() <= 1,
        is_sorting_of(r, s),
    ensures
        r == s,
{
    lemma_sorting_unique(s, r, s);
}

/// Every value of `s` is at most `max_or_zero(s)`, which is itself a value of
/// `s` unless `s` is empty.
pub proof fn lemma_max_or_zero_bounds(s: Seq<u64>)
    ensures
        forall|i: int| 0 <= i < s.len() ==> s[i] <= max_or_zero(s),
        s.len() > 0 ==> s.contains(max_or_zero(s)),
    decreases s.len(),
{
    if s.len() > 0 {
        let init = s.drop_last();
        lemma_max_or_zero_bounds(init);
        assert forall|i: int| 0 <= i < s.len() implies s[i] <= max_or_zero(s) by {
            if i < s.len() - 1 {
                assert(s[i] == init[i]);
            }
        }
        if init.len() > 0 && max_or_zero(s) == max_or_zero(init) {
            let k = choose|k: int| 0 <= k < init.len() && init[k] == max_or_zero(init);
            assert(s[k] == max_or_zero(s));
        } else {
            assert(s[s.len() - 1] == max_or_zero(s));
        }
    }
}

/// Adding one value to a collection raises its maximum to that value, or leaves it.
pub proof fn lemma_max_or_zero_push(s: Seq<u64>, n: u64)
    ensures
        max_or_zero(s.push(n)) == larger(max_or_zero(s), n),
{
    assert(s.push(n).drop_last() =~= s);
}

/// The maximum depends only on which values were added, not on the order in
/// which they came: two orderings of the same values, counted with
/// multiplicity, have the same maximum.
pub proof fn lemma_max_independent_of_order(first: Seq<u64>, second: Seq<u64>)
    requires
        first.to_multiset() == second.to_multiset(),
    ensures
        max_or_zero(first) == max_or_zero(second),
{
    lemma_max_or_zero_bounds(first);
    lemma_max_or_zero_bounds(second);
    if first.len() > 0 {
        let mf = max_or_zero(first);
        let ms = max_or_zero(second);
        assert(first.to_multiset().count(mf) > 0);
        assert(second.contains(mf));
        let j = choose|j: int| 0 <= j < second.len() && second[j] == mf;
        assert(mf <= ms);
        assert(second.to_multiset().count(ms) > 0);
        assert(first.contains(ms));
        let k = choose|k: int| 0 <= k < first.len() && first[k] == ms;
        assert(ms <= mf);
    } else {
        assert(first.len() == first.to_multiset().len());
        assert(second.len() == second.to_multiset().len());
    }
}

/// An element-by-element copy of `numbers`.
pub fn copy_numbers(numbers: &Vec<u64>) -> (r: Vec<u64>)
    ensures
        r@ == numbers@,
{
    let mut r: Vec<u64> = Vec::new();
    let mut i: usize = 0;
    while i < numbers.len()
        invariant
            i <= numbers@.len(),
            r@ == numbers@.subrange(0, i as int),
        decreases numbers@.len() - i,
    {
        r.push(numbers[i]);
        i += 1;
        assert(r@ =~= numbers@.subrange(0, i as int));
    }
    assert(r@ =~= numbers@);
    r
}

/// The least value of `numbers`, or `0` when it is empty.
pub fn min_or_zero(numbers: &Vec<u64>) -> (r: u64)
    ensures
        is_min_or_zero(r, numbers@),
{
    if numbers.len() == 0 {
        return 0;
    }
    let mut m = numbers[0];
    let ghost mut at: int = 0;
    let mut i: usize = 1;
    while i < numbers.len()
        invariant
            1 <= i <= numbers@.len(),
            0 <= at < i,
            numbers@[at] == m,
            forall|k: int| 0 <= k < i ==> m <= numbers@[k],
        decreases numbers@.len() - i,
    {
        if numbers[i] < m {
            m = numbers[i];
            proof {
                at = i as int;
            }
        }
        i += 1;
    }
    assert(numbers@.contains(m));
    m
}

/// Every value of `a` is at most every value of `b`.
pub open spec fn all_at_most(a: Seq<u64>, b: Seq<u64>) -> bool {
    forall|i: int, j: int| 0 <= i < a.len() && 0 <= j < b.len() ==> a[i] <= b[j]
}

/// Every value of `part` is a value of `whole`.
spec fn drawn_from(part: Seq<u64>, whole: Seq<u64>) -> bool {
    forall|j: int| 0 <= j < part.len() ==> whole.contains(part[j])
}

proof fn lemma_at_most_part(a: Seq<u64>, b: Seq<u64>, part: Seq<u64>)
    requires
        drawn_from(part, b),
    ensures
        all_at_most(a, b) ==> all_at_most(a, part),
        all_at_most(b, a) ==> all_at_most(part, a),
{
    assert forall|i: int, j: int| 0 <= i < a.len() && 0 <= j < part.len() && all_at_most(a, b)
        implies a[i] <= part[j] by {
        let k = choose|k: int| 0 <= k < b.len() && b[k] == part[j];
    }
    assert forall|i: int, j: int| 0 <= i < part.len() && 0 <= j < a.len() && all_at_most(b, a)
        implies part[i] <= a[j] by {
        let k = choose|k: int| 0 <= k < b.len() && b[k] == part[i];
    }
}

proof fn lemma_same_values_drawn(a: Seq<u64>, b: Seq<u64>)
    requires
        a.to_multiset() == b.to_multiset(),
    ensures
        drawn_from(a, b),
        drawn_from(b, a),
{
    assert forall|j: int| 0 <= j < a.len() implies b.contains(a[j]) by {
        assert(a.to_multiset().count(a[j]) > 0);
    }
    assert forall|j: int| 0 <= j < b.len() implies a.contains(b[j]) by {
        assert(b.to_multiset().count(b[j]) > 0);
    }
}

/// `a` followed by `b` is sorted when each is and no value of `a` exceeds one of `b`.
proof fn lemma_sorted_concat(a: Seq<u64>, b: Seq<u64>)
    requires
        is_sorted(a),
        is_sorted(b),
        all_at_most(a, b),
    ensures
        is_sorted(a + b),
{
    let c = a + b;
    assert forall|i: int, j: int| 0 <= i < j < c.len() implies c[i] <= c[j] by {
        if j < a.len() {
            assert(c[i] == a[i] && c[j] == a[j]);
        } else if i < a.len() {
            assert(c[i] == a[i] && c[j] == b[j - a.len()]);
        } else {
            assert(c[i] == b[i - a.len()] && c[j] == b[j - a.len()]);
        }
    }
}

/// Splits `numbers` around its last value, the pivot: the other values at
/// most the pivot, in their order, the pivot, and the values greater than it.
fn partition_last(numbers: Vec<u64>) -> (r: (Vec<u64>, u64, Vec<u64>))
    requires
        numbers@.len() > 0,
    ensures
        r.1 == numbers@.last(),
        r.0@.len() + r.2@.len() + 1 == numbers@.len(),
        forall|k: int| 0 <= k < r.0@.len() ==> r.0@[k] <= r.1,
        forall|k: int| 0 <= k < r.2@.len() ==> r.2@[k] > r.1,
        numbers@.to_multiset() == r.0@.to_multiset().add(r.2@.to_multiset()).insert(r.1),
{
    let n = numbers.len();
    let pivot = numbers[n - 1];
    let mut less: Vec<u64> = Vec::new();
    let mut greater: Vec<u64> = Vec::new();
    let mut i: usize = 0;
    while i < n - 1
        invariant
            n == numbers@.len(),
            0 < n,
            0 <= i <= n - 1,
            pivot == numbers@[n - 1],
            less@.len() + greater@.len() == i,
            less@.to_multiset().add(greater@.to_multiset()) == numbers@.subrange(
                0,
                i as int,
            ).to_multiset(),
            forall|k: int| 0 <= k < less@.len() ==> less@[k] <= pivot,
            forall|k: int| 0 <= k < greater@.len() ==> greater@[k] > pivot,
        decreases n - 1 - i,
    {
        let x = numbers[i];
        if x <= pivot {
            less.push(x);
        } else {
            greater.push(x);
        }
        assert(numbers@.subrange(0, i + 1) =~= numbers@.subrange(0, i as int).push(x));
        i += 1;
    }
    assert(numbers@ =~= numbers@.subrange(0, n - 1).push(pivot));
    (less, pivot, greater)
}
/// The values of `numbers` in non-decreasing order.
///
/// Quicksort with the last value of each part as pivot: the values at most
/// the pivot go left of it, the greater ones right of it, each side sorted in
/// turn. Only the smaller side is sorted by a recursive call; the larger one
/// is sorted by the loop, so the recursion is at most logarithmic in depth.
pub fn quick_sort_numbers(numbers: Vec<u64>) -> (r: Vec<u64>)
    ensures
        is_sorting_of(r@, numbers@),
    decreases numbers@.len(),
{
    let ghost input = numbers@;
    // `low` and `high` are finished: sorted, and in their final places
    // around `rest`, which is still to be sorted.
    let mut low: Vec<u64> = Vec::new();
    let mut high: Vec<u64> = Vec::new();
    let mut rest = numbers;
    while rest.len() > 1
        invariant
            input == numbers@,
            rest@.len() <= input.len(),
            is_sorted(low@),
            is_sorted(high@),
            all_at_most(low@, rest@),
            all_at_most(rest@, high@),
            all_at_most(low@, high@),
            low@.to_multiset().add(rest@.to_multiset()).add(high@.to_multiset())
                == input.to_multiset(),
        decreases rest@.len(),
    {
        let ghost old_rest = rest@;
        let (less, pivot, greater) = partition_last(rest);
        let ghost less_view = less@;
        let ghost greater_view = greater@;
        proof {
            assert(old_rest.contains(pivot)) by {
                assert(old_rest[old_rest.len() - 1] == pivot);
            }
            assert(drawn_from(less_view, old_rest)) by {
                assert forall|j: int| 0 <= j < less_view.len() implies old_rest.contains(
                    less_view[j],
                ) by {
                    assert(less_view.to_multiset().count(less_view[j]) > 0);
                    assert(old_rest.to_multiset().count(less_view[j]) > 0);
                }
            }
            assert(drawn_from(greater_view, old_rest)) by {
                assert forall|j: int| 0 <= j < greater_view.len() implies old_rest.contains(
                    greater_view[j],
                ) by {
                    assert(greater_view.to_multiset().count(greater_view[j]) > 0);
                    assert(old_rest.to_multiset().count(greater_view[j]) > 0);
                }
            }
            lemma_at_most_part(low@, old_rest, less_view);
            lemma_at_most_part(low@, old_rest, greater_view);
            lemma_at_most_part(high@, old_rest, less_view);
            lemma_at_most_part(high@, old_rest, greater_view);
            lemma_at_most_part(low@, old_rest, seq![pivot]);
            lemma_at_most_part(high@, old_rest, seq![pivot]);
        }
        if less.len() <= greater.len() {
            let sorted_less = quick_sort_numbers(less);
            let ghost low_before = low@;
            let ghost part = sorted_less@;
            proof {
                lemma_same_values_drawn(part, less_view);
                lemma_at_most_part(low_before, less_view, part);
                lemma_at_most_part(high@, less_view, part);
                lemma_at_most_part(greater_view, less_view, part);
                assert(all_at_most(less_view, greater_view));
                lemma_at_most_part(seq![pivot], less_view, part);
                let with_pivot = part.push(pivot);
                assert(is_sorted(with_pivot));
                assert(all_at_most(low_before, with_pivot));
                lemma_sorted_concat(low_before, with_pivot);
                assert(low_before + with_pivot =~= low_before + part + seq![pivot]);
                assert(all_at_most(with_pivot, greater_view));
                assert(all_at_most(with_pivot, high@));
                let joined = low_before + with_pivot;
                assert(all_at_most(joined, greater_view)) by {
                    assert forall|i: int, j: int| 0 <= i < joined.len() && 0 <= j < greater_view.len()
                        implies joined[i] <= greater_view[j] by {
                        if i >= low_before.len() {
                            assert(joined[i] == with_pivot[i - low_before.len()]);
                        }
                    }
                }
                assert(all_at_most(joined, high@)) by {
                    assert forall|i: int, j: int| 0 <= i < joined.len() && 0 <= j < high@.len()
                        implies joined[i] <= high@[j] by {
                        if i >= low_before.len() {
                            assert(joined[i] == with_pivot[i - low_before.len()]);
                        }
                    }
                }
                lemma_multiset_commutative(low_before, with_pivot);
            }
            let mut sorted_less = sorted_less;
            low.append(&mut sorted_less);
            low.push(pivot);
            proof {
                assert(low@ =~= low_before + part.push(pivot));
            }
            rest = greater;
        } else {
            let sorted_greater = quick_sort_numbers(greater);
            let ghost high_before = high@;
            let ghost part = sorted_greater@;
            proof {
                lemma_same_values_drawn(part, greater_view);
                lemma_at_most_part(low@, greater_view, part);
                lemma_at_most_part(high_before, greater_view, part);
                assert(all_at_most(less_view, greater_view));
                lemma_at_most_part(less_view, greater_view, part);
                lemma_at_most_part(seq![pivot], greater_view, part);
                let front = seq![pivot] + part;
                lemma_sorted_concat(seq![pivot], part);
                assert(all_at_most(front, high_before)) by {
                    assert forall|i: int, j: int| 0 <= i < front.len() && 0 <= j < high_before.len()
                        implies front[i] <= high_before[j] by {
                        if i > 0 {
                            assert(front[i] == part[i - 1]);
                        }
                    }
                }
                lemma_sorted_concat(front, high_before);
                let joined = front + high_before;
                assert(all_at_most(less_view, joined)) by {
                    assert forall|i: int, j: int| 0 <= i < less_view.len() && 0 <= j < joined.len()
                        implies less_view[i] <= joined[j] by {
                        if j >= front.len() {
                            assert(joined[j] == high_before[j - front.len()]);
                        } else if j > 0 {
                            assert(joined[j] == part[j - 1]);
                        }
                    }
                }
                assert(all_at_most(low@, joined)) by {
                    assert forall|i: int, j: int| 0 <= i < low@.len() && 0 <= j < joined.len()
                        implies low@[i] <= joined[j] by {
                        if j >= front.len() {
                            assert(joined[j] == high_before[j - front.len()]);
                        } else if j > 0 {
                            assert(joined[j] == part[j - 1]);
                        }
                    }
                }
                lemma_multiset_commutative(seq![pivot], part);
                lemma_multiset_commutative(front, high_before);
                assert(seq![pivot] =~= Seq::<u64>::empty().push(pivot));
            }
            let mut new_high: Vec<u64> = Vec::new();
            new_high.push(pivot);
            let mut sorted_greater = sorted_greater;
            new_high.append(&mut sorted_greater);
            new_high.append(&mut high);
            proof {
                assert(new_high@ =~= seq![pivot] + part + high_before);
            }
            high = new_high;
            rest = less;
        }
    }
    let ghost low_view = low@;
    let ghost rest_view = rest@;
    let ghost high_view = high@;
    proof {
        assert(is_sorted(rest_view));
        lemma_sorted_concat(low_view, rest_view);
        assert(all_at_most(low_view + rest_view, high_view)) by {
            let joined = low_view + rest_view;
            assert forall|i: int, j: int| 0 <= i < joined.len() && 0 <= j < high_view.len()
                implies joined[i] <= high_view[j] by {
                if i >= low_view.len() {
                    assert(joined[i] == rest_view[i - low_view.len()]);
                }
            }
        }
        lemma_sorted_concat(low_view + rest_view, high_view);
        lemma_multiset_commutative(low_view, rest_view);
        lemma_multiset_commutative(low_view + rest_view, high_view);
    }
    low.append(&mut rest);
    low.append(&mut high);
    proof {
        assert(low@ =~= low_view + rest_view + high_view);
    }
    low
}

} // verus!
