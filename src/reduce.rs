use crate::accumulate::{saturate, zeroed_arrays};
use crate::depth_array::DepthArray;
use crate::region::Region;
use vstd::prelude::*;

verus! {

/// The contents of each array.
pub open spec fn array_views(arrays: Seq<DepthArray>) -> Seq<Seq<u64>> {
    arrays.map_values(|a: DepthArray| a@)
}

/// Two sets of per-region arrays with the same number of arrays and the
/// same length region by region.
pub open spec fn same_shape(a: Seq<Seq<u64>>, b: Seq<Seq<u64>>) -> bool {
    a.len() == b.len() && forall|r: int| 0 <= r < a.len() ==> #[trigger] a[r].len() == b[r].len()
}

/// The shared arrays after one sample's private arrays were added into them,
/// element by element.
pub open spec fn merged(shared: Seq<Seq<u64>>, private: Seq<Seq<u64>>) -> Seq<Seq<u64>> {
    Seq::new(
        shared.len(),
        |r: int|
            Seq::new(shared[r].len(), |i: int| saturate(shared[r][i] + private[r][i]) as u64),
    )
}

/// Adds one sample's private per-region arrays into the shared ones,
/// element by element.
pub fn merge_into(shared: &mut Vec<DepthArray>, private: &Vec<DepthArray>)
    requires
        same_shape(array_views(old(shared)@), array_views(private@)),
    ensures
        array_views(final(shared)@) == merged(array_views(old(shared)@), array_views(private@)),
{
    let ghost before = array_views(shared@);
    let ghost pv = array_views(private@);
    let ghost target = merged(before, pv);
    let mut r: usize = 0;
    while r < shared.len()
        invariant
            r <= shared@.len(),
            shared@.len() == before.len(),
            same_shape(before, pv),
            pv == array_views(private@),
            target == merged(before, pv),
            forall|q: int| 0 <= q < r ==> #[trigger] shared@[q]@ == target[q],
            forall|q: int| r <= q < shared@.len() ==> #[trigger] shared@[q]@ == before[q],
        decreases shared@.len() - r,
    {
        let mut row: DepthArray = DepthArray::zeros(0);
        std::mem::swap(&mut row, &mut shared[r]);
        let ghost row0 = row@;
        assert(row0 == before[r as int]);
        assert(private@[r as int]@ == pv[r as int]);
        let mut i: usize = 0;
        let n = row.len();
        while i < n
            invariant
                i <= n,
                n == row@.len(),
                row@.len() == row0.len(),
                row0.len() == private@[r as int]@.len(),
                r < private@.len(),
                forall|j: int|
                    0 <= j < i ==> #[trigger] row@[j] == saturate(
                        row0[j] + private@[r as int]@[j],
                    ) as u64,
                forall|j: int| i <= j < row@.len() ==> #[trigger] row@[j] == row0[j],
            decreases n - i,
        {
            let cur = row.get(i);
            row.set(i, cur.saturating_add(private[r].get(i)));
            i = i + 1;
        }
        assert(row@ =~= target[r as int]);
        shared[r] = row;
        r = r + 1;
    }
    assert(array_views(shared@) =~= target);
}

/// Why a whole run failed.
#[derive(Debug, Clone, Copy, PartialEq, Eq)]
pub enum RunError {
    /// Every sample failed, so nothing was accumulated.
    AllSamplesFailed,
}

/// The cross-sample totals: one shared array per region, into which each
/// sample's private arrays are merged once that sample is done, with the
/// number of samples merged and of samples that failed.
#[derive(Debug)]
pub struct Reducer {
    pub shared: Vec<DepthArray>,
    pub merged: usize,
    pub failed: usize,
}

impl Reducer {
    /// A reducer whose shared arrays are all zero, one per region, as long
    /// as the region is wide.
    pub fn new(regions: &Vec<Region>) -> (r: Reducer)
        requires
            forall|q: int|
                0 <= q < regions@.len() ==> #[trigger] regions@[q].wf()
                    && regions@[q].width_spec() <= isize::MAX,
        ensures
            r.shared@.len() == regions@.len(),
            forall|q: int|
                0 <= q < regions@.len() ==> #[trigger] r.shared@[q]@ == Seq::new(
                    regions@[q].width_spec() as nat,
                    |i: int| 0u64,
                ),
            r.merged == 0,
            r.failed == 0,
    {
        Reducer { shared: zeroed_arrays(regions), merged: 0, failed: 0 }
    }

    /// Merges one finished sample's private arrays into the shared ones.
    pub fn merge_sample(&mut self, private: &Vec<DepthArray>)
        requires
            same_shape(array_views(old(self).shared@), array_views(private@)),
            old(self).merged < usize::MAX,
        ensures
            array_views(final(self).shared@) == merged(
                array_views(old(self).shared@),
                array_views(private@),
            ),
            final(self).merged == old(self).merged + 1,
            final(self).failed == old(self).failed,
    {
        merge_into(&mut self.shared, private);
        self.merged = self.merged + 1;
    }

    /// Notes a sample that failed and contributes nothing.
    pub fn record_failure(&mut self)
        requires
            old(self).failed < usize::MAX,
        ensures
            final(self).shared == old(self).shared,
            final(self).merged == old(self).merged,
            final(self).failed == old(self).failed + 1,
    {
        self.failed = self.failed + 1;
    }

    /// The shared arrays, unless every sample failed.
    pub fn finish(self) -> (r: Result<Vec<DepthArray>, RunError>)
        ensures
            self.merged == 0 && self.failed > 0 ==> r == Err::<Vec<DepthArray>, RunError>(
                RunError::AllSamplesFailed,
            ),
            !(self.merged == 0 && self.failed > 0) ==> r is Ok && r->Ok_0@ == self.shared@,
    {
        if self.merged == 0 && self.failed > 0 {
            Err(RunError::AllSamplesFailed)
        } else {
            Ok(self.shared)
        }
    }
}

} // verus!
