use crate::number::{parse_unsigned, parsed_unsigned};
use vstd::prelude::*;

verus! {

/// A half-open stretch `[start, stop)` of one chromosome.
#[derive(Debug, Clone)]
pub struct Region {
    pub chr: String,
    pub start: usize,
    pub stop: usize,
}

/// Why a catalog record could not be read.
#[derive(Debug, Clone, Copy, PartialEq, Eq)]
pub enum CatalogError {
    /// The catalog does not exist.
    NotFound,
    /// The record has no chromosome name.
    MissingChromosome,
    /// The start or stop is absent or not a non-negative integer.
    BadCoordinate,
    /// The stop does not lie after the start.
    EmptyRegion,
}

impl Region {
    /// A region holds at least one base.
    pub open spec fn wf(&self) -> bool {
        self.start < self.stop
    }

    /// The number of bases of the region.
    pub open spec fn width_spec(&self) -> int {
        self.stop - self.start
    }

    /// The number of bases of the region.
    pub fn width(&self) -> (w: usize)
        requires
            self.start <= self.stop,
        ensures
            w == self.width_spec(),
    {
        self.stop - self.start
    }
}

/// The text of each field of a record.
pub open spec fn field_views(fields: Seq<String>) -> Seq<Seq<char>> {
    fields.map_values(|f: String| f@)
}

/// A coordinate read from text: an unsigned number that fits in a `usize`.
pub open spec fn coordinate_of(s: Seq<char>) -> Option<usize> {
    match parsed_unsigned(s) {
        Some(v) => if v <= usize::MAX {
            Some(v as usize)
        } else {
            None
        },
        None => None,
    }
}

/// Reads a coordinate.
pub fn parse_coordinate(s: &str) -> (r: Option<usize>)
    ensures
        r == coordinate_of(s@),
{
    match parse_unsigned(s) {
        Some(v) => if v <= usize::MAX as u64 {
            Some(v as usize)
        } else {
            None
        },
        None => None,
    }
}

/// What is wrong with a catalog record `chromosome, start, stop, ...`, if anything.
pub open spec fn region_error(fields: Seq<Seq<char>>) -> Option<CatalogError> {
    if fields.len() < 1 || fields[0].len() == 0 {
        Some(CatalogError::MissingChromosome)
    } else if fields.len() < 3 || coordinate_of(fields[1]).is_none() || coordinate_of(
        fields[2],
    ).is_none() {
        Some(CatalogError::BadCoordinate)
    } else if coordinate_of(fields[2]).unwrap() <= coordinate_of(fields[1]).unwrap() {
        Some(CatalogError::EmptyRegion)
    } else {
        None
    }
}

/// Reads one catalog record, given as its tab-separated fields: chromosome,
/// start and stop; further fields are ignored.
pub fn parse_region(fields: &Vec<String>) -> (r: Result<Region, CatalogError>)
    ensures
        match r {
            Ok(region) => {
                &&& region_error(field_views(fields@)) is None
                &&& region.wf()
                &&& region.chr@ == fields@[0]@
                &&& region.start == coordinate_of(fields@[1]@).unwrap()
                &&& region.stop == coordinate_of(fields@[2]@).unwrap()
            },
            Err(e) => region_error(field_views(fields@)) == Some(e),
        },
{
    let ghost fv = field_views(fields@);
    if fields.len() < 1 || fields[0].unicode_len() == 0 {
        return Err(CatalogError::MissingChromosome);
    }
    if fields.len() < 3 {
        return Err(CatalogError::BadCoordinate);
    }
    let start = match parse_coordinate(fields[1].as_str()) {
        Some(v) => v,
        None => {
            return Err(CatalogError::BadCoordinate);
        },
    };
    let stop = match parse_coordinate(fields[2].as_str()) {
        Some(v) => v,
        None => {
            return Err(CatalogError::BadCoordinate);
        },
    };
    if stop <= start {
        return Err(CatalogError::EmptyRegion);
    }
    Ok(Region { chr: fields[0].clone(), start, stop })
}

} // verus!
