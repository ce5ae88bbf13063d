use crate::reduce::array_views;
use crate::depth_array::DepthArray;
use crate::region::Region;
use vstd::prelude::*;

verus! {

/// One output line: the depth statistic at one base, `[start, end)`.
#[derive(Debug, Clone)]
pub struct BaseRecord {
    pub chr: String,
    pub start: usize,
    pub end: usize,
    pub value: u64,
}

/// A record's content: chromosome, start, end and value.
pub open spec fn row_of(rec: BaseRecord) -> (Seq<char>, int, int, u64) {
    (rec.chr@, rec.start as int, rec.end as int, rec.value)
}

/// The rows of one region, one per base, by increasing position.
pub open spec fn region_rows(region: Region, arr: Seq<u64>) -> Seq<(Seq<char>, int, int, u64)> {
    Seq::new(
        region.width_spec() as nat,
        |i: int| (region.chr@, region.start + i, region.start + i + 1, arr[i]),
    )
}

/// The rows of all regions, in catalog order.
pub open spec fn output_rows(regions: Seq<Region>, arrays: Seq<Seq<u64>>) -> Seq<
    (Seq<char>, int, int, u64),
>
    decreases regions.len(),
{
    if regions.len() == 0 {
        Seq::empty()
    } else {
        output_rows(regions.drop_last(), arrays) + region_rows(
            regions.last(),
            arrays[regions.len() - 1],
        )
    }
}

/// One record per base of every region, in catalog order and by increasing
/// position within a region, holding that base's accumulated value.
pub fn output_records(regions: &Vec<Region>, arrays: &Vec<DepthArray>) -> (out: Vec<BaseRecord>)
    requires
        regions@.len() == arrays@.len(),
        forall|r: int|
            0 <= r < regions@.len() ==> #[trigger] regions@[r].wf() && arrays@[r]@.len()
                == regions@[r].width_spec(),
    ensures
        out@.map_values(|rec: BaseRecord| row_of(rec)) == output_rows(
            regions@,
            array_views(arrays@),
        ),
{
    let ghost av = array_views(arrays@);
    let mut out: Vec<BaseRecord> = Vec::new();
    let mut r: usize = 0;
    assert(regions@.subrange(0, 0) =~= Seq::<Region>::empty());
    while r < regions.len()
        invariant
            r <= regions@.len(),
            regions@.len() == arrays@.len(),
            av == array_views(arrays@),
            forall|q: int|
                0 <= q < regions@.len() ==> #[trigger] regions@[q].wf() && arrays@[q]@.len()
                    == regions@[q].width_spec(),
            out@.map_values(|rec: BaseRecord| row_of(rec)) == output_rows(
                regions@.subrange(0, r as int),
                av,
            ),
        decreases regions@.len() - r,
    {
        let region = &regions[r];
        let arr = &arrays[r];
        assert(regions@[r as int].wf());
        assert(*arr == arrays@[r as int]);
        assert(region.wf() && arr@.len() == region.width_spec());
        let ghost base = out@.map_values(|rec: BaseRecord| row_of(rec));
        let ghost rows = region_rows(*region, av[r as int]);
        assert(av[r as int] == arr@);
        let w = region.width();
        let mut i: usize = 0;
        while i < w
            invariant
                i <= w,
                w == region.width_spec(),
                region.wf(),
                arr@.len() == w,
                rows == region_rows(*region, arr@),
                out@.map_values(|rec: BaseRecord| row_of(rec)) == base + rows.subrange(0, i as int),
            decreases w - i,
        {
            let pos = region.start + i;
            let rec = BaseRecord { chr: region.chr.clone(), start: pos, end: pos + 1, value: arr.get(i) };
            let ghost prev = out@;
            out.push(rec);
            assert(out@.map_values(|rec: BaseRecord| row_of(rec)) =~= prev.map_values(
                |rec: BaseRecord| row_of(rec),
            ).push(row_of(rec)));
            assert(base + rows.subrange(0, i + 1) =~= (base + rows.subrange(0, i as int)).push(
                rows[i as int],
            ));
            i = i + 1;
        }
        let ghost next = regions@.subrange(0, r + 1);
        assert(next.drop_last() =~= regions@.subrange(0, r as int));
        assert(rows.subrange(0, w as int) =~= rows);
        r = r + 1;
    }
    assert(regions@.subrange(0, regions@.len() as int) =~= regions@);
    out
}

} // verus!
