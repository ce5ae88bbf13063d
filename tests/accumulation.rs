use region_depth::{
    accumulate_region, apply, merge_into, output_records, parse_region, zeroed_arrays,
    Aggregation, DepthArray, DepthInterval, Reducer, Region, RunError,
};

fn fields(parts: &[&str]) -> Vec<String> {
    parts.iter().map(|p| p.to_string()).collect()
}

fn array_of(values: &[u64]) -> DepthArray {
    DepthArray::from_values(&values.to_vec())
}

fn values(arrays: &[DepthArray]) -> Vec<Vec<u64>> {
    arrays.iter().map(|a| a.to_vec()).collect()
}

fn chr1_region() -> Region {
    parse_region(&fields(&["chr1", "10", "20"])).unwrap()
}

fn lines(parts: &[&str]) -> Vec<String> {
    parts.iter().map(|p| p.to_string()).collect()
}

fn sample_a() -> Vec<String> {
    lines(&["chr1\t0\t12\t4", "chr1\t12\t25\t5"])
}

fn sample_b() -> Vec<String> {
    lines(&["chr1\t10\t20\t1"])
}

fn sample_arrays(regions: &Vec<Region>, records: &Vec<String>, strategy: Aggregation) -> Vec<DepthArray> {
    let mut arrays = zeroed_arrays(regions);
    let skipped = accumulate_region(&mut arrays[0], &regions[0], records, strategy);
    assert_eq!(skipped, 0);
    arrays
}

#[test]
fn sum_end_to_end_one_sample() {
    let regions = vec![chr1_region()];
    let a = sample_arrays(&regions, &sample_a(), Aggregation::Sum);
    // [0, 12) is half-open: it covers bases 10 and 11 of the region only.
    assert_eq!(a[0].to_vec(), vec![4, 4, 5, 5, 5, 5, 5, 5, 5, 5]);
}

#[test]
fn sum_end_to_end_two_samples() {
    let regions = vec![chr1_region()];
    let mut reducer = Reducer::new(&regions);
    reducer.merge_sample(&sample_arrays(&regions, &sample_a(), Aggregation::Sum));
    reducer.merge_sample(&sample_arrays(&regions, &sample_b(), Aggregation::Sum));
    let total = reducer.finish().unwrap();
    assert_eq!(total[0].to_vec(), vec![5, 5, 6, 6, 6, 6, 6, 6, 6, 6]);
}

#[test]
fn threshold_count_two_samples() {
    let regions = vec![chr1_region()];
    let strategy = Aggregation::ThresholdCount(5);
    let a = sample_arrays(&regions, &sample_a(), strategy);
    let b = sample_arrays(&regions, &sample_b(), strategy);
    assert_eq!(a[0].to_vec(), vec![0, 0, 1, 1, 1, 1, 1, 1, 1, 1]);
    assert_eq!(b[0].to_vec(), vec![0; 10]);
    let mut reducer = Reducer::new(&regions);
    reducer.merge_sample(&a);
    reducer.merge_sample(&b);
    assert_eq!(reducer.finish().unwrap()[0].to_vec(), vec![0, 0, 1, 1, 1, 1, 1, 1, 1, 1]);
}

#[test]
fn merge_order_does_not_matter() {
    let regions = vec![chr1_region()];
    let strategy = Aggregation::ThresholdCount(1);
    let a = sample_arrays(&regions, &sample_a(), strategy);
    let b = sample_arrays(&regions, &sample_b(), strategy);
    let mut ab = zeroed_arrays(&regions);
    merge_into(&mut ab, &a);
    merge_into(&mut ab, &b);
    let mut ba = zeroed_arrays(&regions);
    merge_into(&mut ba, &b);
    merge_into(&mut ba, &a);
    assert_eq!(values(&ab), values(&ba));
    assert_eq!(ab[0].to_vec(), vec![2; 10]);
}

#[test]
fn merge_saturates() {
    let mut shared = vec![array_of(&[u64::MAX - 1, 3])];
    merge_into(&mut shared, &vec![array_of(&[5, 4])]);
    assert_eq!(values(&shared), vec![vec![u64::MAX, 7]]);
}

#[test]
fn apply_trims_to_region() {
    let region = chr1_region();
    let mut arr = array_of(&[0; 10]);
    apply(&mut arr, &region, &DepthInterval { start: 12, stop: 15, value: 7 }, Aggregation::Sum);
    assert_eq!(arr.to_vec(), vec![0, 0, 7, 7, 7, 0, 0, 0, 0, 0]);
    apply(&mut arr, &region, &DepthInterval { start: 5, stop: 30, value: 1 }, Aggregation::Sum);
    assert_eq!(arr.to_vec(), vec![1, 1, 8, 8, 8, 1, 1, 1, 1, 1]);
}

#[test]
fn apply_outside_region_changes_nothing() {
    let region = chr1_region();
    let mut arr = array_of(&[3; 10]);
    apply(&mut arr, &region, &DepthInterval { start: 0, stop: 10, value: 9 }, Aggregation::Sum);
    apply(&mut arr, &region, &DepthInterval { start: 20, stop: 40, value: 9 }, Aggregation::Sum);
    assert_eq!(arr.to_vec(), vec![3u64; 10]);
}

#[test]
fn apply_order_within_sample_does_not_matter() {
    let region = chr1_region();
    let ivs = [
        DepthInterval { start: 0, stop: 12, value: 4 },
        DepthInterval { start: 12, stop: 16, value: 5 },
        DepthInterval { start: 16, stop: 30, value: 2 },
    ];
    let mut forward = array_of(&[0; 10]);
    for iv in ivs.iter() {
        apply(&mut forward, &region, iv, Aggregation::Sum);
    }
    let mut backward = array_of(&[0; 10]);
    for iv in ivs.iter().rev() {
        apply(&mut backward, &region, iv, Aggregation::Sum);
    }
    assert_eq!(forward.to_vec(), backward.to_vec());
    assert_eq!(forward.to_vec(), vec![4, 4, 5, 5, 5, 5, 2, 2, 2, 2]);
}

#[test]
fn threshold_count_boundary() {
    let region = chr1_region();
    let mut arr = array_of(&[0; 10]);
    apply(&mut arr, &region, &DepthInterval { start: 10, stop: 12, value: 4 }, Aggregation::ThresholdCount(4));
    apply(&mut arr, &region, &DepthInterval { start: 12, stop: 14, value: 3 }, Aggregation::ThresholdCount(4));
    assert_eq!(arr.to_vec(), vec![1, 1, 0, 0, 0, 0, 0, 0, 0, 0]);
}

#[test]
fn malformed_records_are_skipped() {
    let regions = vec![chr1_region()];
    let records = lines(&[
        "chr1\t10\t12",
        "chr1\t12\tx\t3",
        "chr1\t14\t13\t3",
        "chr1 15 17 2",
        "chr1\t15\t17\t2\textra",
    ]);
    let mut arrays = zeroed_arrays(&regions);
    let skipped = accumulate_region(&mut arrays[0], &regions[0], &records, Aggregation::Sum);
    assert_eq!(skipped, 4);
    assert_eq!(arrays[0].to_vec(), vec![0, 0, 0, 0, 0, 2, 2, 0, 0, 0]);
}

#[test]
fn empty_catalog_gives_empty_output() {
    let regions: Vec<Region> = Vec::new();
    let reducer = Reducer::new(&regions);
    let total = reducer.finish().unwrap();
    assert!(total.is_empty());
    assert!(output_records(&regions, &total).is_empty());
}

#[test]
fn zero_depth_region_gives_zero_lines() {
    let regions = vec![chr1_region()];
    let mut reducer = Reducer::new(&regions);
    reducer.merge_sample(&sample_arrays(&regions, &Vec::new(), Aggregation::Sum));
    let total = reducer.finish().unwrap();
    let out = output_records(&regions, &total);
    assert_eq!(out.len(), 10);
    for (i, rec) in out.iter().enumerate() {
        assert_eq!(rec.chr, "chr1");
        assert_eq!(rec.start, 10 + i);
        assert_eq!(rec.end, 11 + i);
        assert_eq!(rec.value, 0);
    }
}

#[test]
fn output_follows_catalog_order() {
    let regions = vec![
        parse_region(&fields(&["chr2", "5", "7"])).unwrap(),
        parse_region(&fields(&["chr1", "0", "1"])).unwrap(),
    ];
    let arrays = vec![array_of(&[3, 4]), array_of(&[9])];
    let out = output_records(&regions, &arrays);
    let rows: Vec<(String, usize, usize, u64)> =
        out.iter().map(|r| (r.chr.clone(), r.start, r.end, r.value)).collect();
    assert_eq!(
        rows,
        vec![
            ("chr2".to_string(), 5, 6, 3),
            ("chr2".to_string(), 6, 7, 4),
            ("chr1".to_string(), 0, 1, 9),
        ]
    );
}

#[test]
fn all_samples_failed_is_an_error() {
    let regions = vec![chr1_region()];
    let mut reducer = Reducer::new(&regions);
    reducer.record_failure();
    reducer.record_failure();
    assert_eq!(reducer.finish().unwrap_err(), RunError::AllSamplesFailed);
}

#[test]
fn one_healthy_sample_is_enough() {
    let regions = vec![chr1_region()];
    let mut reducer = Reducer::new(&regions);
    reducer.record_failure();
    reducer.merge_sample(&sample_arrays(&regions, &sample_b(), Aggregation::Sum));
    assert_eq!(reducer.merged, 1);
    assert_eq!(reducer.failed, 1);
    assert_eq!(reducer.finish().unwrap()[0].to_vec(), vec![1; 10]);
}

#[test]
fn depth_array_round_trip() {
    let a = array_of(&[7, 0, 3]);
    assert_eq!(a.to_vec(), vec![7, 0, 3]);
    assert!(array_of(&[]).to_vec().is_empty());
}

#[test]
fn region_beyond_every_interval_stays_zero() {
    let regions = vec![parse_region(&fields(&["chr1", "100", "103"])).unwrap()];
    let mut reducer = Reducer::new(&regions);
    reducer.merge_sample(&sample_arrays(&regions, &sample_a(), Aggregation::Sum));
    reducer.merge_sample(&sample_arrays(&regions, &sample_b(), Aggregation::Sum));
    let total = reducer.finish().unwrap();
    let out = output_records(&regions, &total);
    let values: Vec<u64> = out.iter().map(|r| r.value).collect();
    assert_eq!(values, vec![0, 0, 0]);
    assert_eq!(out[2].start, 102);
}
