use trading_engine::repository::{
    bucket_start_s, cleanup_cutoffs, decimal_or_zero, is_duplicate_key_error, parse_interval, BucketInterval,
};

#[test]
fn duplicate_key_errors_are_recognised() {
    assert!(is_duplicate_key_error(
        "error returned from database: duplicate key value violates unique constraint \"idx\""
    ));
    assert!(is_duplicate_key_error("violates unique constraint"));
    assert!(!is_duplicate_key_error("connection refused"));
    assert!(!is_duplicate_key_error(""));
}

#[test]
fn cleanup_bounds() {
    assert_eq!(cleanup_cutoffs(10_000_000, 0), (10_000_000, 10_000));
    assert_eq!(cleanup_cutoffs(10_000_000, 1), (6_400_000, 6_400));
    assert_eq!(cleanup_cutoffs(10_000_000, 5), (0, 0));
}

#[test]
fn buckets() {
    assert_eq!(parse_interval("minute"), Some(BucketInterval::Minute));
    assert_eq!(parse_interval("hour"), Some(BucketInterval::Hour));
    assert_eq!(parse_interval("day"), None);
    assert_eq!(bucket_start_s(1_700_000_123_456, BucketInterval::Minute), 1_700_000_100);
    assert_eq!(bucket_start_s(1_700_000_123_456, BucketInterval::Hour), 1_699_999_200);
}

#[test]
fn missing_decimals_read_zero() {
    assert_eq!(decimal_or_zero(None), "0");
    assert_eq!(decimal_or_zero(Some("1.5".to_string())), "1.5");
}
