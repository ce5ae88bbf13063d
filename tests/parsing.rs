use region_depth::{
    parse_coordinate, parse_depth_record, parse_region, parse_unsigned, split_fields, trimmed_end,
    trimmed_start, CatalogError, DepthInterval, RecordError,
};

fn fields(parts: &[&str]) -> Vec<String> {
    parts.iter().map(|p| p.to_string()).collect()
}

#[test]
fn unsigned_numbers() {
    assert_eq!(parse_unsigned("0"), Some(0));
    assert_eq!(parse_unsigned("042"), Some(42));
    assert_eq!(parse_unsigned("+7"), Some(7));
    assert_eq!(parse_unsigned("18446744073709551615"), Some(u64::MAX));
    assert_eq!(parse_unsigned("18446744073709551616"), None);
    assert_eq!(parse_unsigned(""), None);
    assert_eq!(parse_unsigned("+"), None);
    assert_eq!(parse_unsigned("-1"), None);
    assert_eq!(parse_unsigned("1.5"), None);
    assert_eq!(parse_unsigned(" 3"), None);
}

#[test]
fn coordinates() {
    assert_eq!(parse_coordinate("123"), Some(123usize));
    assert_eq!(parse_coordinate("abc"), None);
}

#[test]
fn region_record() {
    let r = parse_region(&fields(&["chr1", "10", "20", "extra"])).unwrap();
    assert_eq!(r.chr, "chr1");
    assert_eq!(r.start, 10);
    assert_eq!(r.stop, 20);
    assert_eq!(r.width(), 10);
}

#[test]
fn region_record_errors() {
    assert_eq!(parse_region(&fields(&[])).unwrap_err(), CatalogError::MissingChromosome);
    assert_eq!(parse_region(&fields(&["", "1", "2"])).unwrap_err(), CatalogError::MissingChromosome);
    assert_eq!(parse_region(&fields(&["chr1", "1"])).unwrap_err(), CatalogError::BadCoordinate);
    assert_eq!(parse_region(&fields(&["chr1", "-1", "2"])).unwrap_err(), CatalogError::BadCoordinate);
    assert_eq!(parse_region(&fields(&["chr1", "1", "x"])).unwrap_err(), CatalogError::BadCoordinate);
    assert_eq!(parse_region(&fields(&["chr1", "5", "5"])).unwrap_err(), CatalogError::EmptyRegion);
    assert_eq!(parse_region(&fields(&["chr1", "6", "5"])).unwrap_err(), CatalogError::EmptyRegion);
}

#[test]
fn depth_record() {
    let iv = parse_depth_record(&fields(&["chr1", "0", "12", "4"])).unwrap();
    assert_eq!(iv, DepthInterval { start: 0, stop: 12, value: 4 });
}

#[test]
fn depth_record_errors() {
    assert_eq!(parse_depth_record(&fields(&["chr1", "0", "12"])).unwrap_err(), RecordError::TooFewFields);
    assert_eq!(parse_depth_record(&fields(&["chr1", "0", "12", "4.5"])).unwrap_err(), RecordError::BadNumber);
    assert_eq!(parse_depth_record(&fields(&["chr1", "a", "12", "4"])).unwrap_err(), RecordError::BadNumber);
    assert_eq!(parse_depth_record(&fields(&["chr1", "12", "12", "4"])).unwrap_err(), RecordError::EmptyInterval);
}

#[test]
fn trimming_bounds() {
    let r = parse_region(&fields(&["chr1", "10", "20"])).unwrap();
    let inside = DepthInterval { start: 12, stop: 15, value: 1 };
    assert_eq!((trimmed_start(&r, &inside), trimmed_end(&r, &inside)), (2, 5));
    let wide = DepthInterval { start: 0, stop: 25, value: 1 };
    assert_eq!((trimmed_start(&r, &wide), trimmed_end(&r, &wide)), (0, 10));
    let before = DepthInterval { start: 0, stop: 10, value: 1 };
    assert_eq!((trimmed_start(&r, &before), trimmed_end(&r, &before)), (0, 0));
    let after = DepthInterval { start: 20, stop: 30, value: 1 };
    assert_eq!((trimmed_start(&r, &after), trimmed_end(&r, &after)), (10, 10));
}

#[test]
fn tab_separated_fields() {
    assert_eq!(split_fields("chr1\t0\t12\t4"), vec!["chr1", "0", "12", "4"]);
    assert_eq!(split_fields(""), vec![""]);
    assert_eq!(split_fields("a\t\tb\t"), vec!["a", "", "b", ""]);
    assert_eq!(split_fields("no tabs here"), vec!["no tabs here"]);
}
