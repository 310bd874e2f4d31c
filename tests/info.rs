use system_monitor::info::{
    CpuInfo, DiskInfo, MemoryInfo, MemoryUnit, SystemHealthStatus, SystemInfo, SystemSnapshot,
    TimeFormatter,
};

fn host() -> SystemInfo {
    SystemInfo {
        os_name: "Windows".to_string(),
        os_version: "11".to_string(),
        kernel_version: "10.0".to_string(),
        hostname: "test".to_string(),
        uptime: 3600,
        boot_time: 1640995200,
    }
}

fn disk(usage_percent: u32) -> DiskInfo {
    DiskInfo {
        name: "sda".to_string(),
        mount_point: "/".to_string(),
        file_system: "ext4".to_string(),
        total_space: 100,
        available_space: 50,
        used_space: 50,
        usage_percent,
    }
}

#[test]
fn test_memory_unit_conversion() {
    assert_eq!(MemoryUnit::bytes_to_human_readable(0), "0 B");
    assert_eq!(MemoryUnit::bytes_to_human_readable(1024), "1.0 KB");
    assert_eq!(MemoryUnit::bytes_to_human_readable(1048576), "1.0 MB");
    assert_eq!(MemoryUnit::bytes_to_human_readable(1073741824), "1.0 GB");
}

#[test]
fn test_time_formatter() {
    assert_eq!(TimeFormatter::seconds_to_human_readable(30), "30秒");
    assert_eq!(TimeFormatter::seconds_to_human_readable(90), "1分钟 30秒");
    assert_eq!(TimeFormatter::seconds_to_human_readable(3661), "1小时 1分钟");
    assert_eq!(TimeFormatter::seconds_to_human_readable(90061), "1天 1小时 1分钟");
}

#[test]
fn test_system_health_status() {
    let cpu = CpuInfo { global_usage: 2000, cores: vec![], core_count: 4 };
    let memory = MemoryInfo {
        total: 8589934592,
        used: 2147483648,
        available: 6442450944,
        free: 6442450944,
        usage_percent: 2500,
    };
    let snapshot = SystemSnapshot::new(1_640_995_200_000, cpu, memory, vec![], host(), None);

    assert_eq!(snapshot.get_health_status(), SystemHealthStatus::Excellent);
}

#[test]
fn bytes_below_one_kilobyte_stay_whole() {
    assert_eq!(MemoryUnit::bytes_to_human_readable(1023), "1023 B");
    assert_eq!(MemoryUnit::bytes_to_human_readable(1536), "1.5 KB");
    assert_eq!(MemoryUnit::bytes_to_human_readable(1024u64 * 1024 * 1024 * 1024 * 1024), "1024.0 TB");
}

#[test]
fn load_score_weights_cpu_memory_and_fullest_disk() {
    let cpu = CpuInfo { global_usage: 9000, cores: vec![], core_count: 1 };
    let memory = MemoryInfo { total: 10, used: 9, available: 1, free: 1, usage_percent: 8000 };
    let snapshot = SystemSnapshot::new(0, cpu, memory, vec![disk(2000), disk(9500), disk(100)], host(), None);
    // (4 * 9000 + 4 * 8000 + 2 * 9500) / 10
    assert_eq!(snapshot.calculate_system_load_score(), 8700);
    assert_eq!(snapshot.get_health_status(), SystemHealthStatus::Critical);
}

#[test]
fn health_bands_follow_the_score() {
    let make = |cpu: u32| {
        SystemSnapshot::new(
            0,
            CpuInfo { global_usage: cpu, cores: vec![], core_count: 1 },
            MemoryInfo { total: 1, used: 0, available: 1, free: 1, usage_percent: cpu },
            vec![disk(cpu)],
            host(),
            None,
        )
    };
    assert_eq!(make(2999).get_health_status(), SystemHealthStatus::Excellent);
    assert_eq!(make(3000).get_health_status(), SystemHealthStatus::Good);
    assert_eq!(make(5000).get_health_status(), SystemHealthStatus::Fair);
    assert_eq!(make(7000).get_health_status(), SystemHealthStatus::Poor);
    assert_eq!(make(8500).get_health_status(), SystemHealthStatus::Critical);
    assert_eq!(SystemHealthStatus::Excellent.description(), "系统运行优秀");
    assert_eq!(SystemHealthStatus::Critical.description(), "系统负载严重");
}

#[test]
fn usage_share_in_hundredths() {
    assert_eq!(system_monitor::info::usage_percent_of(1, 3), 3333);
    assert_eq!(system_monitor::info::usage_percent_of(5, 0), 0);
    assert_eq!(system_monitor::info::usage_percent_of(50, 100), 5000);
    assert_eq!(system_monitor::info::usage_percent_of(u64::MAX, 1), u32::MAX);
}
