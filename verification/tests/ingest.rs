//! Behavior of the ingest helpers: typed field reading, integer parsing and
//! column resolution.

use telamentis::ingest::{find_column_index, parse_csv_value, parse_i64, parse_u64};
use telamentis::props::PropValue;

#[test]
fn test_find_column_index() {
    let headers = vec!["id".to_string(), "name".to_string(), "age".to_string()];

    assert_eq!(find_column_index(&headers, "id").unwrap(), 0);
    assert_eq!(find_column_index(&headers, "name").unwrap(), 1);
    assert_eq!(find_column_index(&headers, "1").unwrap(), 1);
    assert!(find_column_index(&headers, "missing").is_err());
    // A numeric name beyond the width falls back to a header lookup.
    assert!(find_column_index(&headers, "7").is_err());
}

#[test]
fn test_parse_csv_value() {
    assert!(matches!(parse_csv_value("123"), PropValue::Int(123)));
    assert!(matches!(parse_csv_value("-7"), PropValue::Int(-7)));
    // The core holds no floating point: a fractional number stays a string.
    assert!(matches!(parse_csv_value("123.45"), PropValue::Str(s) if s == "123.45"));
    assert!(matches!(parse_csv_value("true"), PropValue::Bool(true)));
    assert!(matches!(parse_csv_value("YES"), PropValue::Bool(true)));
    assert!(matches!(parse_csv_value("false"), PropValue::Bool(false)));
    assert!(matches!(parse_csv_value("no"), PropValue::Bool(false)));
    assert!(matches!(parse_csv_value("hello"), PropValue::Str(s) if s == "hello"));
    // The digit forms read as integers before the boolean words apply.
    assert!(matches!(parse_csv_value("1"), PropValue::Int(1)));
    assert!(matches!(parse_csv_value("0"), PropValue::Int(0)));
}

#[test]
fn test_integer_parsing() {
    assert_eq!(parse_u64("0"), Some(0));
    assert_eq!(parse_u64("00042"), Some(42));
    assert_eq!(parse_u64("18446744073709551615"), Some(u64::MAX));
    assert_eq!(parse_u64("18446744073709551616"), None);
    assert_eq!(parse_u64(""), None);
    assert_eq!(parse_u64("12a"), None);
    assert_eq!(parse_u64("999999999999999999999999999999"), None);

    assert_eq!(parse_i64("9223372036854775807"), Some(i64::MAX));
    assert_eq!(parse_i64("-9223372036854775808"), Some(i64::MIN));
    assert_eq!(parse_i64("9223372036854775808"), None);
    assert_eq!(parse_i64("+17"), Some(17));
    assert_eq!(parse_i64("-"), None);
    assert_eq!(parse_i64("--3"), None);
}
