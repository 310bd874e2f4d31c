use system_monitor::ui::{TabType, UiUtils};

#[test]
fn test_format_bytes() {
    assert_eq!(UiUtils::format_bytes(0), "0 B");
    assert_eq!(UiUtils::format_bytes(1024), "1.0 KB");
    assert_eq!(UiUtils::format_bytes(1048576), "1.0 MB");
    assert_eq!(UiUtils::format_bytes(1073741824), "1.0 GB");
}

#[test]
fn test_tab_type_name() {
    assert_eq!(TabType::Overview.name(), "概览");
    assert_eq!(TabType::Cpu.name(), "CPU");
    assert_eq!(TabType::Memory.name(), "内存");
}

#[test]
fn all_tabs_in_display_order() {
    let tabs = TabType::all();
    assert_eq!(tabs.len(), 6);
    assert_eq!(tabs[0], TabType::Overview);
    assert_eq!(tabs[5], TabType::Network);
    assert_eq!(TabType::Network.name(), "网络");
}

#[test]
fn frequencies_pick_their_unit() {
    assert_eq!(UiUtils::format_frequency(999), "999 Hz");
    assert_eq!(UiUtils::format_frequency(1_000), "1.0 KHz");
    assert_eq!(UiUtils::format_frequency(2_460_000), "2.5 MHz");
    assert_eq!(UiUtils::format_frequency(3_600_000_000), "3.6 GHz");
    assert_eq!(UiUtils::format_frequency(1_999_999_999), "2.0 GHz");
}

#[test]
fn durations_by_largest_part() {
    assert_eq!(UiUtils::format_duration(0), "0秒");
    assert_eq!(UiUtils::format_duration(59), "59秒");
    assert_eq!(UiUtils::format_duration(86400), "1天 0小时 0分钟");
}

#[test]
fn byte_sizes_round_to_one_decimal() {
    assert_eq!(UiUtils::format_bytes(1_100_000), "1.0 MB");
    assert_eq!(UiUtils::format_bytes(1_992_294), "1.9 MB");
    assert_eq!(UiUtils::format_bytes(u64::MAX), "16777216.0 TB");
}
