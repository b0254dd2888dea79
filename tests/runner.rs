use jjq::runlog::format_duration;
use std::time::Duration;

#[test]
fn test_format_duration_seconds() {
    assert_eq!(format_duration(Duration::from_secs(0).as_secs()), "0s");
    assert_eq!(format_duration(Duration::from_secs(42).as_secs()), "42s");
    assert_eq!(format_duration(Duration::from_secs(59).as_secs()), "59s");
}

#[test]
fn test_format_duration_minutes() {
    assert_eq!(format_duration(Duration::from_secs(60).as_secs()), "1m 0s");
    assert_eq!(format_duration(Duration::from_secs(90).as_secs()), "1m 30s");
    assert_eq!(format_duration(Duration::from_secs(3661).as_secs()), "61m 1s");
}
