use sqlite_reader::executor::QueryResult;
use sqlite_reader::text::{signed_decimal_string, unsigned_decimal};

#[test]
fn test_query_result_creation() {
    let empty = QueryResult::empty();
    assert_eq!(empty.rows.len(), 0);

    let single = QueryResult::single_value("test".to_string());
    assert_eq!(single.rows.len(), 1);
    assert_eq!(single.rows[0].values, vec!["test".to_string()]);

    let count = QueryResult::count(5);
    assert_eq!(count.rows.len(), 1);
    assert_eq!(count.rows[0].values, vec!["5".to_string()]);
}

#[test]
fn counts_render_in_base_ten() {
    assert_eq!(QueryResult::count(0).rows[0].values, vec!["0".to_string()]);
    assert_eq!(QueryResult::count(1234567).rows[0].values, vec!["1234567".to_string()]);
    assert_eq!(unsigned_decimal(u64::MAX), "18446744073709551615");
    assert_eq!(signed_decimal_string(-42), "-42");
    assert_eq!(signed_decimal_string(i64::MIN), "-9223372036854775808");
    assert_eq!(signed_decimal_string(7), "7");
}
