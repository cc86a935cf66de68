use photosort::search::{parse_size_value, SearchQuery};

#[test]
fn test_parse_date_filter_single() {
    let (start, end) = SearchQuery::parse_date_filter("2024-01-15");
    assert_eq!(start, Some("2024-01-15".to_string()));
    assert_eq!(end, Some("2024-01-15".to_string()));
}

#[test]
fn test_parse_date_filter_range() {
    let (start, end) = SearchQuery::parse_date_filter("2024-01-01..2024-12-31");
    assert_eq!(start, Some("2024-01-01".to_string()));
    assert_eq!(end, Some("2024-12-31".to_string()));
}

#[test]
fn test_parse_size_filter_gt() {
    let (min, max) = SearchQuery::parse_size_filter(">10MB");
    assert_eq!(min, Some(10_485_760));
    assert_eq!(max, None);
}

#[test]
fn test_parse_size_filter_lt() {
    let (min, max) = SearchQuery::parse_size_filter("<1GB");
    assert_eq!(min, None);
    assert_eq!(max, Some(1_073_741_824));
}

#[test]
fn test_parse_size_filter_range() {
    let (min, max) = SearchQuery::parse_size_filter("5MB..50MB");
    assert_eq!(min, Some(5_242_880));
    assert_eq!(max, Some(52_428_800));
}

#[test]
fn test_parse_size_value() {
    assert_eq!(parse_size_value("100"), Some(100));
    assert_eq!(parse_size_value("1KB"), Some(1024));
    assert_eq!(parse_size_value("10MB"), Some(10_485_760));
    assert_eq!(parse_size_value("1GB"), Some(1_073_741_824));
}

#[test]
fn size_values_edge_cases() {
    assert_eq!(parse_size_value(" 2 kb "), Some(2048));
    assert_eq!(parse_size_value("7B"), Some(7));
    assert_eq!(parse_size_value("MB"), None);
    assert_eq!(parse_size_value("abc"), None);
    assert_eq!(parse_size_value("9223372036854775807GB"), None);
    assert_eq!(SearchQuery::parse_size_filter("1..2..3"), (None, None));
}
