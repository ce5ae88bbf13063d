use crate::number::{parse_unsigned, parsed_unsigned};
use crate::region::{coordinate_of, field_views, parse_coordinate};
use vstd::prelude::*;

verus! {

/// A half-open stretch `[start, stop)` over which one sample has one depth.
#[derive(Debug, Clone, Copy, PartialEq, Eq)]
pub struct DepthInterval {
    pub start: usize,
    pub stop: usize,
    pub value: u64,
}

/// Why a depth record was skipped.
#[derive(Debug, Clone, Copy, PartialEq, Eq)]
pub enum RecordError {
    /// Fewer than four fields.
    TooFewFields,
    /// The start, stop or depth is not a non-negative integer.
    BadNumber,
    /// The stop does not lie after the start.
    EmptyInterval,
}

/// What is wrong with a depth record `chromosome, start, stop, depth, ...`, if anything.
pub open spec fn record_error(fields: Seq<Seq<char>>) -> Option<RecordError> {
    if fields.len() < 4 {
        Some(RecordError::TooFewFields)
    } else if coordinate_of(fields[1]).is_none() || coordinate_of(fields[2]).is_none()
        || parsed_unsigned(fields[3]).is_none() {
        Some(RecordError::BadNumber)
    } else if coordinate_of(fields[2]).unwrap() <= coordinate_of(fields[1]).unwrap() {
        Some(RecordError::EmptyInterval)
    } else {
        None
    }
}

/// The interval that a depth record describes, if it is well formed.
pub open spec fn record_interval(fields: Seq<Seq<char>>) -> Option<DepthInterval> {
    if record_error(fields) is None {
        Some(
            DepthInterval {
                start: coordinate_of(fields[1]).unwrap(),
                stop: coordinate_of(fields[2]).unwrap(),
                value: parsed_unsigned(fields[3]).unwrap(),
            },
        )
    } else {
        None
    }
}

/// Reads one depth record, given as its tab-separated fields: chromosome,
/// start, stop and depth; further fields are ignored.
pub fn parse_depth_record(fields: &Vec<String>) -> (r: Result<DepthInterval, RecordError>)
    ensures
        match r {
            Ok(iv) => record_interval(field_views(fields@)) == Some(iv),
            Err(e) => record_error(field_views(fields@)) == Some(e),
        },
{
    if fields.len() < 4 {
        return Err(RecordError::TooFewFields);
    }
    let start = parse_coordinate(fields[1].as_str());
    let stop = parse_coordinate(fields[2].as_str());
    let value = parse_unsigned(fields[3].as_str());
    match (start, stop, value) {
        (Some(start), Some(stop), Some(value)) => {
            if stop <= start {
                Err(RecordError::EmptyInterval)
            } else {
                Ok(DepthInterval { start, stop, value })
            }
        },
        _ => Err(RecordError::BadNumber),
    }
}

} // verus!
