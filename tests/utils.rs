use std::time::Duration;
use system_monitor::utils::{MathUtils, StringUtils, TimeUtils, ValidationUtils};

#[test]
fn test_time_utils() {
    let timestamp = TimeUtils::current_timestamp();
    assert!(timestamp > 0);

    let duration = Duration::from_secs(3661);
    let formatted = TimeUtils::format_duration(duration);
    assert!(formatted.contains("1小时"));
}

#[test]
fn test_string_utils() {
    assert_eq!(StringUtils::format_file_size(1024), "1.0 KB");
    assert_eq!(StringUtils::format_file_size(1048576), "1.0 MB");
    assert_eq!(StringUtils::truncate("Hello World", 5), "He...");
    assert_eq!(StringUtils::format_number(1234567), "1,234,567");
}

#[test]
fn test_validation_utils() {
    assert!(ValidationUtils::is_valid_port(8080));
    assert!(!ValidationUtils::is_valid_port(0));
    assert!(ValidationUtils::is_valid_ip("192.168.1.1"));
    assert!(!ValidationUtils::is_valid_ip("256.1.1.1"));
    assert!(ValidationUtils::is_in_range(15, 10, 20));
    assert!(!ValidationUtils::is_in_range(25, 10, 20));
}

#[test]
fn clamp_limits_to_range() {
    assert_eq!(MathUtils::clamp(15, 10, 20), 15);
    assert_eq!(MathUtils::clamp(5, 10, 20), 10);
    assert_eq!(MathUtils::clamp(25, 10, 20), 20);
}

#[test]
fn duration_keeps_whole_seconds() {
    assert_eq!(TimeUtils::format_duration(Duration::from_millis(90_999)), "1分钟 30秒");
}

#[test]
fn truncate_keeps_short_strings() {
    assert_eq!(StringUtils::truncate("Hello", 5), "Hello");
    assert_eq!(StringUtils::truncate("Hello", 2), "...");
    assert_eq!(StringUtils::truncate("abcdefgh", 7), "abcd...");
}

#[test]
fn numbers_group_by_thousands() {
    assert_eq!(StringUtils::format_number(0), "0");
    assert_eq!(StringUtils::format_number(999), "999");
    assert_eq!(StringUtils::format_number(1000), "1,000");
    assert_eq!(StringUtils::format_number(1_000_005), "1,000,005");
    assert_eq!(StringUtils::format_number(u64::MAX), "18,446,744,073,709,551,615");
}

#[test]
fn file_sizes_reach_petabytes() {
    assert_eq!(StringUtils::format_file_size(0), "0 B");
    assert_eq!(StringUtils::format_file_size(1u64 << 50), "1.0 PB");
    assert_eq!(StringUtils::format_file_size(1u64 << 60), "1024.0 PB");
}

#[test]
fn ip_fields_are_counted() {
    assert!(ValidationUtils::is_valid_ip("0.0.0.0"));
    assert!(ValidationUtils::is_valid_ip("+1.2.3.004"));
    assert!(!ValidationUtils::is_valid_ip("1.2.3"));
    assert!(!ValidationUtils::is_valid_ip(""));
    assert!(!ValidationUtils::is_valid_ip("1..2.3"));
    assert!(ValidationUtils::is_valid_ip("1.2.x.3.4"));
    assert!(!ValidationUtils::is_valid_ip("1.2.3.4.5"));
}

#[test]
fn paths_must_be_nonempty_without_nul() {
    assert!(ValidationUtils::is_valid_path("/tmp/x"));
    assert!(!ValidationUtils::is_valid_path(""));
    assert!(!ValidationUtils::is_valid_path("a\0b"));
    assert!(ValidationUtils::is_valid_port(65535));
}
