use crate::fields::{split_fields, split_tabs};
use crate::interval::{parse_depth_record, record_interval, DepthInterval};
use crate::depth_array::DepthArray;
use crate::region::Region;
use vstd::prelude::*;

verus! {

/// How one interval changes the bases it covers.
#[derive(Debug, Clone, Copy, PartialEq, Eq)]
pub enum Aggregation {
    /// Add the interval's depth.
    Sum,
    /// Add one where the interval's depth is at least the given minimum.
    ThresholdCount(u64),
}

/// `x`, held at `u64::MAX` where it is larger: per-base totals saturate.
pub open spec fn saturate(x: int) -> int {
    if x > u64::MAX {
        u64::MAX as int
    } else {
        x
    }
}

/// What an interval of depth `value` adds to each base it covers.
pub open spec fn contribution(strategy: Aggregation, value: u64) -> u64 {
    match strategy {
        Aggregation::Sum => value,
        Aggregation::ThresholdCount(min) => if value >= min {
            1
        } else {
            0
        },
    }
}

/// Clamps `x` into `[0, w]`.
pub open spec fn clamp(x: int, w: int) -> int {
    if x < 0 {
        0
    } else if x > w {
        w
    } else {
        x
    }
}

/// First array index that the interval covers once trimmed to the region.
pub open spec fn trim_lo(region: Region, iv: DepthInterval) -> int {
    let s = if iv.start > region.start { iv.start as int } else { region.start as int };
    clamp(s - region.start, region.width_spec())
}

/// One past the last array index that the interval covers once trimmed to the region.
pub open spec fn trim_hi(region: Region, iv: DepthInterval) -> int {
    let e = if iv.stop < region.stop { iv.stop as int } else { region.stop as int };
    clamp(e - region.start, region.width_spec())
}

/// Whether the trimmed interval covers array index `i`.
pub open spec fn covers(region: Region, iv: DepthInterval, i: int) -> bool {
    trim_lo(region, iv) <= i < trim_hi(region, iv)
}

/// The region's array after one interval was applied to it.
pub open spec fn applied(
    arr: Seq<u64>,
    region: Region,
    iv: DepthInterval,
    strategy: Aggregation,
) -> Seq<u64> {
    Seq::new(
        arr.len(),
        |i: int|
            if covers(region, iv, i) {
                saturate(arr[i] + contribution(strategy, iv.value)) as u64
            } else {
                arr[i]
            },
    )
}

/// The region's array after the intervals were applied one by one, in order.
pub open spec fn applied_all(
    arr: Seq<u64>,
    region: Region,
    ivs: Seq<DepthInterval>,
    strategy: Aggregation,
) -> Seq<u64>
    decreases ivs.len(),
{
    if ivs.len() == 0 {
        arr
    } else {
        applied(applied_all(arr, region, ivs.drop_last(), strategy), region, ivs.last(), strategy)
    }
}

/// The contribution of one interval, under the strategy, to the value
/// at array index `i`.
pub open spec fn contribution_at(region: Region, strategy: Aggregation, i: int) -> spec_fn(
    DepthInterval,
) -> int {
    |iv: DepthInterval|
        if covers(region, iv, i) {
            contribution(strategy, iv.value) as int
        } else {
            0
        }
}

/// The first array index that the interval covers once trimmed to the region.
pub fn trimmed_start(region: &Region, iv: &DepthInterval) -> (r: usize)
    requires
        region.wf(),
    ensures
        r == trim_lo(*region, *iv),
{
    let w = region.stop - region.start;
    if iv.start <= region.start {
        0
    } else if iv.start - region.start > w {
        w
    } else {
        iv.start - region.start
    }
}

/// One past the last array index that the interval covers once trimmed to the region.
pub fn trimmed_end(region: &Region, iv: &DepthInterval) -> (r: usize)
    requires
        region.wf(),
    ensures
        r == trim_hi(*region, *iv),
{
    if iv.stop >= region.stop {
        region.stop - region.start
    } else if iv.stop <= region.start {
        0
    } else {
        iv.stop - region.start
    }
}

/// Applies one depth interval to the region's array: each index that the
/// interval covers, once trimmed to the region, gains the interval's
/// contribution under the strategy; every other index keeps its value.
pub fn apply(array: &mut DepthArray, region: &Region, iv: &DepthInterval, strategy: Aggregation)
    requires
        region.wf(),
        old(array)@.len() == region.width_spec(),
    ensures
        final(array)@ == applied(old(array)@, *region, *iv, strategy),
        forall|i: int|
            0 <= i < old(array)@.len() ==> #[trigger] final(array)@[i] == if trim_lo(*region, *iv)
                <= i < trim_hi(*region, *iv) {
                saturate(old(array)@[i] + contribution(strategy, iv.value)) as u64
            } else {
                old(array)@[i]
            },
{
    let lo = trimmed_start(region, iv);
    let hi = trimmed_end(region, iv);
    let add: u64 = match strategy {
        Aggregation::Sum => iv.value,
        Aggregation::ThresholdCount(min) => if iv.value >= min {
            1
        } else {
            0
        },
    };
    let ghost before = array@;
    let ghost target = applied(before, *region, *iv, strategy);
    let mut i: usize = lo;
    while i < hi
        invariant
            lo == trim_lo(*region, *iv),
            hi == trim_hi(*region, *iv),
            lo <= i,
            i <= hi || i == lo,
            hi <= array@.len(),
            add == contribution(strategy, iv.value),
            array@.len() == before.len(),
            before.len() == region.width_spec(),
            target == applied(before, *region, *iv, strategy),
            forall|k: int| 0 <= k < array@.len() && lo <= k < i ==> #[trigger] array@[k] == target[k],
            forall|k: int| 0 <= k < array@.len() && !(lo <= k < i) ==> #[trigger] array@[k] == before[k],
        decreases hi - i,
    {
        let cur = array.get(i);
        array.set(i, cur.saturating_add(add));
        i = i + 1;
    }
    assert(array@ =~= target);
}

/// The tab-separated fields of each record line.
pub open spec fn record_views(records: Seq<String>) -> Seq<Seq<Seq<char>>> {
    records.map_values(|r: String| split_tabs(r@))
}

/// The intervals of the well-formed records, in their order.
pub open spec fn good_intervals(records: Seq<Seq<Seq<char>>>) -> Seq<DepthInterval>
    decreases records.len(),
{
    if records.len() == 0 {
        Seq::empty()
    } else {
        let earlier = good_intervals(records.drop_last());
        match record_interval(records.last()) {
            Some(iv) => earlier.push(iv),
            None => earlier,
        }
    }
}

/// The number of malformed records.
pub open spec fn count_malformed(records: Seq<Seq<Seq<char>>>) -> nat
    decreases records.len(),
{
    if records.len() == 0 {
        0
    } else {
        count_malformed(records.drop_last()) + if record_interval(records.last()) is None {
            1nat
        } else {
            0nat
        }
    }
}

/// Applies to the region's array, in order, the interval of every
/// well-formed record line that one fetch returned, and skips the malformed
/// ones.
/// Returns how many were skipped.
pub fn accumulate_region(
    array: &mut DepthArray,
    region: &Region,
    records: &Vec<String>,
    strategy: Aggregation,
) -> (skipped: usize)
    requires
        region.wf(),
        old(array)@.len() == region.width_spec(),
    ensures
        final(array)@ == applied_all(
            old(array)@,
            *region,
            good_intervals(record_views(records@)),
            strategy,
        ),
        skipped == count_malformed(record_views(records@)),
{
    let ghost rv = record_views(records@);
    let ghost before = array@;
    let mut skipped: usize = 0;
    let mut k: usize = 0;
    assert(rv.subrange(0, 0) =~= Seq::<Seq<Seq<char>>>::empty());
    while k < records.len()
        invariant
            region.wf(),
            k <= records.len(),
            rv == record_views(records@),
            skipped <= k,
            array@.len() == region.width_spec(),
            array@ == applied_all(before, *region, good_intervals(rv.subrange(0, k as int)), strategy),
            skipped == count_malformed(rv.subrange(0, k as int)),
        decreases records.len() - k,
    {
        let ghost prefix = rv.subrange(0, k as int);
        let ghost next = rv.subrange(0, k + 1);
        assert(next.drop_last() =~= prefix);
        assert(next.last() == split_tabs(records@[k as int]@));
        let fields = split_fields(records[k].as_str());
        match parse_depth_record(&fields) {
            Ok(iv) => {
                let ghost good = good_intervals(prefix);
                apply(array, region, &iv, strategy);
                assert(good.push(iv).drop_last() =~= good);
            },
            Err(_) => {
                skipped = skipped + 1;
            },
        }
        k = k + 1;
    }
    assert(rv.subrange(0, records.len() as int) =~= rv);
    skipped
}

/// One array of zeros per region, as long as the region is wide.
pub fn zeroed_arrays(regions: &Vec<Region>) -> (arrays: Vec<DepthArray>)
    requires
        forall|r: int|
            0 <= r < regions@.len() ==> #[trigger] regions@[r].wf() && regions@[r].width_spec()
                <= isize::MAX,
    ensures
        arrays@.len() == regions@.len(),
        forall|r: int|
            0 <= r < regions@.len() ==> #[trigger] arrays@[r]@ == Seq::new(
                regions@[r].width_spec() as nat,
                |i: int| 0u64,
            ),
{
    let mut arrays: Vec<DepthArray> = Vec::new();
    let mut r: usize = 0;
    while r < regions.len()
        invariant
            r <= regions@.len(),
            forall|q: int|
                0 <= q < regions@.len() ==> #[trigger] regions@[q].wf()
                    && regions@[q].width_spec() <= isize::MAX,
            arrays@.len() == r,
            forall|q: int|
                0 <= q < r ==> #[trigger] arrays@[q]@ == Seq::new(
                    regions@[q].width_spec() as nat,
                    |i: int| 0u64,
                ),
        decreases regions@.len() - r,
    {
        assert(regions@[r as int].wf());
        let w = regions[r].width();
        arrays.push(DepthArray::zeros(w));
        r = r + 1;
    }
    arrays
}

} // verus!
