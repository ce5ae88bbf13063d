//! Accumulation of per-sample sequencing depth over a catalog of genomic
//! regions: running per-base totals and per-base counts of samples that meet
//! a depth threshold.
pub mod accumulate;
pub mod depth_array;
pub mod fields;
pub mod interval;
pub mod laws;
pub mod number;
pub mod output;
pub mod reduce;
pub mod region;

pub use accumulate::{accumulate_region, apply, zeroed_arrays, trimmed_end, trimmed_start, Aggregation};
pub use depth_array::DepthArray;
pub use fields::split_fields;
pub use interval::{parse_depth_record, DepthInterval, RecordError};
pub use number::parse_unsigned;
pub use output::{output_records, BaseRecord};
pub use reduce::{merge_into, Reducer, RunError};
pub use region::{parse_coordinate, parse_region, CatalogError, Region};
pub use laws::{
    lemma_apply_order_independent, lemma_merge_order_independent, lemma_outside_interval_unchanged,
    lemma_outside_intervals_unchanged,
};
