use crate::accumulate::{
    applied, applied_all, contribution_at, saturate, trim_hi, trim_lo, Aggregation,
};
use crate::interval::DepthInterval;
use crate::reduce::{merged, same_shape};
use crate::region::Region;
use vstd::prelude::*;

verus! {

broadcast use vstd::seq_lib::group_to_multiset_ensures;

/// The sum of `f` over the elements of `s`.
pub open spec fn sum_by<A>(s: Seq<A>, f: spec_fn(A) -> int) -> int
    decreases s.len(),
{
    if s.len() == 0 {
        0
    } else {
        sum_by(s.drop_last(), f) + f(s.last())
    }
}

/// A sum of non-negative terms is non-negative.
pub proof fn lemma_sum_nonneg<A>(s: Seq<A>, f: spec_fn(A) -> int)
    requires
        forall|a: A| #[trigger] f(a) >= 0,
    ensures
        sum_by(s, f) >= 0,
    decreases s.len(),
{
    if s.len() > 0 {
        lemma_sum_nonneg(s.drop_last(), f);
    }
}

/// Taking one element out of a sequence takes its term out of the sum.
pub proof fn lemma_sum_remove<A>(s: Seq<A>, j: int, f: spec_fn(A) -> int)
    requires
        0 <= j < s.len(),
    ensures
        sum_by(s, f) == sum_by(s.remove(j), f) + f(s[j]),
    decreases s.len(),
{
    if j == s.len() - 1 {
        assert(s.remove(j) =~= s.drop_last());
    } else {
        lemma_sum_remove(s.drop_last(), j, f);
        assert(s.remove(j).drop_last() =~= s.drop_last().remove(j));
        assert(s.remove(j).last() == s.last());
    }
}

/// A sum does not depend on the order of its terms.
pub proof fn lemma_sum_permutation<A>(s1: Seq<A>, s2: Seq<A>, f: spec_fn(A) -> int)
    requires
        s1.to_multiset() == s2.to_multiset(),
    ensures
        sum_by(s1, f) == sum_by(s2, f),
    decreases s1.len(),
{
    if s1.len() == 0 {
        assert(s2.to_multiset().len() == 0);
        assert(s2 =~= s1);
    } else {
        let x = s1.last();
        let n = s1.len() - 1;
        assert(s1.remove(n) =~= s1.drop_last());
        assert(s1.to_multiset().count(x) > 0);
        assert(s2.contains(x));
        let j = choose|j: int| 0 <= j < s2.len() && s2[j] == x;
        assert(s1.drop_last().to_multiset() =~= s2.remove(j).to_multiset());
        lemma_sum_permutation(s1.drop_last(), s2.remove(j), f);
        lemma_sum_remove(s2, j, f);
    }
}

/// Adding `a` and then `c` with saturation is adding `a + c` with saturation,
/// for non-negative terms.
pub proof fn lemma_saturate_twice(x: int, a: int, c: int)
    requires
        0 <= x <= u64::MAX,
        a >= 0,
        c >= 0,
    ensures
        saturate(saturate(x + a) + c) == saturate(x + a + c),
        0 <= saturate(x + a) <= u64::MAX,
{
}

/// Index `i` of a region's array, after a sequence of intervals was applied
/// to it, holds its first value plus every interval's contribution there,
/// saturated.
pub proof fn lemma_applied_all_entries(
    arr: Seq<u64>,
    region: Region,
    ivs: Seq<DepthInterval>,
    strategy: Aggregation,
)
    ensures
        applied_all(arr, region, ivs, strategy).len() == arr.len(),
        forall|i: int|
            0 <= i < arr.len() ==> #[trigger] applied_all(arr, region, ivs, strategy)[i]
                == saturate(arr[i] + sum_by(ivs, contribution_at(region, strategy, i))),
    decreases ivs.len(),
{
    if ivs.len() > 0 {
        let prev = applied_all(arr, region, ivs.drop_last(), strategy);
        lemma_applied_all_entries(arr, region, ivs.drop_last(), strategy);
        assert forall|i: int| 0 <= i < arr.len() implies #[trigger] applied_all(
            arr,
            region,
            ivs,
            strategy,
        )[i] == saturate(arr[i] + sum_by(ivs, contribution_at(region, strategy, i))) by {
            let f = contribution_at(region, strategy, i);
            assert forall|a: DepthInterval| #[trigger] f(a) >= 0 by {}
            lemma_sum_nonneg(ivs.drop_last(), f);
            lemma_saturate_twice(arr[i] as int, sum_by(ivs.drop_last(), f), f(ivs.last()));
        }
    }
}

/// An interval that lies wholly outside the region leaves its array as it was.
pub proof fn lemma_outside_interval_unchanged(
    arr: Seq<u64>,
    region: Region,
    iv: DepthInterval,
    strategy: Aggregation,
)
    requires
        region.wf(),
        iv.stop <= region.start || iv.start >= region.stop,
    ensures
        applied(arr, region, iv, strategy) == arr,
{
    assert(trim_hi(region, iv) <= trim_lo(region, iv));
    assert(applied(arr, region, iv, strategy) =~= arr);
}

/// Intervals that all lie wholly outside the region leave its array as it
/// was: a region that no interval reaches keeps its zeros.
pub proof fn lemma_outside_intervals_unchanged(
    arr: Seq<u64>,
    region: Region,
    ivs: Seq<DepthInterval>,
    strategy: Aggregation,
)
    requires
        region.wf(),
        forall|k: int|
            0 <= k < ivs.len() ==> (#[trigger] ivs[k]).stop <= region.start || ivs[k].start
                >= region.stop,
    ensures
        applied_all(arr, region, ivs, strategy) == arr,
    decreases ivs.len(),
{
    if ivs.len() > 0 {
        let rest = ivs.drop_last();
        assert forall|k: int| 0 <= k < rest.len() implies (#[trigger] rest[k]).stop <= region.start
            || rest[k].start >= region.stop by {
            assert(rest[k] == ivs[k]);
        }
        lemma_outside_intervals_unchanged(arr, region, rest, strategy);
        assert(ivs.last() == ivs[ivs.len() - 1]);
        lemma_outside_interval_unchanged(arr, region, ivs.last(), strategy);
    }
}

/// Within one sample, the order in which intervals are applied to a region's
/// array does not change the result.
pub proof fn lemma_apply_order_independent(
    arr: Seq<u64>,
    region: Region,
    ivs1: Seq<DepthInterval>,
    ivs2: Seq<DepthInterval>,
    strategy: Aggregation,
)
    requires
        ivs1.to_multiset() == ivs2.to_multiset(),
    ensures
        applied_all(arr, region, ivs1, strategy) == applied_all(arr, region, ivs2, strategy),
{
    lemma_applied_all_entries(arr, region, ivs1, strategy);
    lemma_applied_all_entries(arr, region, ivs2, strategy);
    assert forall|i: int| 0 <= i < arr.len() implies #[trigger] applied_all(
        arr,
        region,
        ivs1,
        strategy,
    )[i] == applied_all(arr, region, ivs2, strategy)[i] by {
        lemma_sum_permutation(ivs1, ivs2, contribution_at(region, strategy, i));
    }
    assert(applied_all(arr, region, ivs1, strategy) =~= applied_all(arr, region, ivs2, strategy));
}

/// The shared arrays after the samples' private arrays were merged into
/// them one after another, in order.
pub open spec fn merged_all(shared: Seq<Seq<u64>>, privates: Seq<Seq<Seq<u64>>>) -> Seq<Seq<u64>>
    decreases privates.len(),
{
    if privates.len() == 0 {
        shared
    } else {
        merged(merged_all(shared, privates.drop_last()), privates.last())
    }
}

/// The value that one sample's arrays hold at index `i` of region `r`.
pub open spec fn entry_at(r: int, i: int) -> spec_fn(Seq<Seq<u64>>) -> int {
    |p: Seq<Seq<u64>>| p[r][i] as int
}

/// After merging the samples' private arrays into the shared ones, each
/// element is its first value plus the samples' values there, saturated.
pub proof fn lemma_merged_all_entries(shared: Seq<Seq<u64>>, privates: Seq<Seq<Seq<u64>>>)
    requires
        forall|k: int| 0 <= k < privates.len() ==> same_shape(shared, #[trigger] privates[k]),
    ensures
        same_shape(merged_all(shared, privates), shared),
        forall|r: int, i: int|
            0 <= r < shared.len() && 0 <= i < shared[r].len() ==> #[trigger] merged_all(
                shared,
                privates,
            )[r][i] == saturate(shared[r][i] + sum_by(privates, entry_at(r, i))),
    decreases privates.len(),
{
    if privates.len() > 0 {
        let rest = privates.drop_last();
        assert forall|k: int| 0 <= k < rest.len() implies same_shape(shared, #[trigger] rest[k]) by {
            assert(rest[k] == privates[k]);
        }
        lemma_merged_all_entries(shared, rest);
        let last = privates.last();
        assert(same_shape(shared, privates[privates.len() - 1]));
        assert forall|r: int, i: int|
            0 <= r < shared.len() && 0 <= i < shared[r].len() implies #[trigger] merged_all(
            shared,
            privates,
        )[r][i] == saturate(shared[r][i] + sum_by(privates, entry_at(r, i))) by {
            let f = entry_at(r, i);
            assert forall|a: Seq<Seq<u64>>| #[trigger] f(a) >= 0 by {}
            lemma_sum_nonneg(rest, f);
            lemma_saturate_twice(shared[r][i] as int, sum_by(rest, f), f(last));
        }
    }
}

/// Merging the samples' private arrays into the shared arrays gives, at each
/// element, the first value plus the sum over the samples (saturated at
/// `u64::MAX`), whatever order the samples are merged in.
pub proof fn lemma_merge_order_independent(
    shared: Seq<Seq<u64>>,
    privates1: Seq<Seq<Seq<u64>>>,
    privates2: Seq<Seq<Seq<u64>>>,
)
    requires
        forall|k: int| 0 <= k < privates1.len() ==> same_shape(shared, #[trigger] privates1[k]),
        privates1.to_multiset() == privates2.to_multiset(),
    ensures
        merged_all(shared, privates1) == merged_all(shared, privates2),
        forall|r: int, i: int|
            0 <= r < shared.len() && 0 <= i < shared[r].len() ==> #[trigger] merged_all(
                shared,
                privates1,
            )[r][i] == saturate(shared[r][i] + sum_by(privates1, entry_at(r, i))),
{
    assert forall|k: int| 0 <= k < privates2.len() implies same_shape(
        shared,
        #[trigger] privates2[k],
    ) by {
        assert(privates2.to_multiset().count(privates2[k]) > 0);
        assert(privates1.contains(privates2[k]));
    }
    lemma_merged_all_entries(shared, privates1);
    lemma_merged_all_entries(shared, privates2);
    let m1 = merged_all(shared, privates1);
    let m2 = merged_all(shared, privates2);
    assert forall|r: int| 0 <= r < m1.len() implies #[trigger] m1[r] == m2[r] by {
        assert forall|i: int| 0 <= i < m1[r].len() implies #[trigger] m1[r][i] == m2[r][i] by {
            lemma_sum_permutation(privates1, privates2, entry_at(r, i));
        }
        assert(m1[r] =~= m2[r]);
    }
    assert(m1 =~= m2);
}

} // verus!
