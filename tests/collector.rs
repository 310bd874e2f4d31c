use system_monitor::batch::{batch_schedule, BatchProgress, BatchStep, BatchSystemCollector};
use system_monitor::collector::{CachedSystemCollector, SnapshotSource};
use system_monitor::error::SystemMonitorError;
use system_monitor::info::{CpuInfo, DiskInfo, MemoryInfo, NetworkInfo, ProcessInfo, SystemInfo};

#[derive(Default)]
struct CountingSource {
    cpu_reads: u32,
    memory_reads: u32,
    disk_reads: u32,
    system_reads: u32,
    network_reads: u32,
    process_reads: u32,
    refreshes: u32,
    fail_cpu: bool,
    fail_network: bool,
    fail_refresh: bool,
}

fn unavailable() -> SystemMonitorError {
    SystemMonitorError::SystemInfo("source unavailable".to_string())
}

impl SnapshotSource for CountingSource {
    fn refresh_all(&mut self) -> Result<(), SystemMonitorError> {
        if self.fail_refresh {
            return Err(unavailable());
        }
        self.refreshes += 1;
        Ok(())
    }

    fn read_cpu(&mut self) -> Result<CpuInfo, SystemMonitorError> {
        self.cpu_reads += 1;
        if self.fail_cpu {
            return Err(unavailable());
        }
        Ok(CpuInfo { global_usage: 1000 * self.cpu_reads, cores: vec![], core_count: 2 })
    }

    fn read_memory(&mut self) -> Result<MemoryInfo, SystemMonitorError> {
        self.memory_reads += 1;
        Ok(MemoryInfo { total: 100, used: 40, available: 60, free: 60, usage_percent: 4000 })
    }

    fn read_disks(&mut self) -> Result<Vec<DiskInfo>, SystemMonitorError> {
        self.disk_reads += 1;
        let disk = |name: &str, usage_percent: u32| DiskInfo {
            name: name.to_string(),
            mount_point: "/".to_string(),
            file_system: "ext4".to_string(),
            total_space: 100,
            available_space: 10,
            used_space: 90,
            usage_percent,
        };
        Ok(vec![disk("a", 3000), disk("b", 9000)])
    }

    fn read_processes(&mut self) -> Result<Vec<ProcessInfo>, SystemMonitorError> {
        self.process_reads += 1;
        Ok(vec![ProcessInfo {
            pid: 1,
            name: "init".to_string(),
            cpu_usage: 10,
            memory_usage: 1024,
            status: "Run".to_string(),
        }])
    }

    fn read_system_info(&mut self) -> Result<SystemInfo, SystemMonitorError> {
        self.system_reads += 1;
        Ok(SystemInfo {
            os_name: "Linux".to_string(),
            os_version: "6".to_string(),
            kernel_version: "6.1".to_string(),
            hostname: "box".to_string(),
            uptime: 10,
            boot_time: 1,
        })
    }

    fn read_network(&mut self) -> Result<Vec<NetworkInfo>, SystemMonitorError> {
        self.network_reads += 1;
        if self.fail_network {
            return Err(unavailable());
        }
        Ok(vec![NetworkInfo {
            name: "eth0".to_string(),
            bytes_received: 1,
            bytes_sent: 2,
            packets_received: 3,
            packets_sent: 4,
            errors_received: 0,
            errors_sent: 0,
        }])
    }
}

#[test]
fn gets_within_duration_read_once() {
    let mut collector = CachedSystemCollector::new(CountingSource::default(), 1000, 0);
    let first = collector.get_cached_cpu_info(0).unwrap();
    let second = collector.get_cached_cpu_info(999).unwrap();
    assert_eq!(first, second);
    assert_eq!(collector.source().cpu_reads, 1);
}

#[test]
fn get_after_duration_reads_exactly_once() {
    let mut collector = CachedSystemCollector::new(CountingSource::default(), 1000, 0);
    collector.get_cached_cpu_info(0).unwrap();
    collector.get_cached_cpu_info(1000).unwrap();
    assert_eq!(collector.source().cpu_reads, 1);
    let later = collector.get_cached_cpu_info(1001).unwrap();
    assert_eq!(collector.source().cpu_reads, 2);
    assert_eq!(later.global_usage, 2000);
    collector.get_cached_cpu_info(1500).unwrap();
    assert_eq!(collector.source().cpu_reads, 2);
}

#[test]
fn kinds_are_cached_independently() {
    let mut collector = CachedSystemCollector::new(CountingSource::default(), 1000, 0);
    collector.get_cached_cpu_info(0).unwrap();
    collector.get_cached_memory_info(500).unwrap();
    collector.get_cached_cpu_info(1200).unwrap();
    collector.get_cached_memory_info(1200).unwrap();
    assert_eq!(collector.source().cpu_reads, 2);
    assert_eq!(collector.source().memory_reads, 1);
}

#[test]
fn force_refresh_invalidates_every_slot() {
    let mut collector = CachedSystemCollector::new(CountingSource::default(), 10_000, 0);
    collector.collect_system_snapshot(0, 1_700_000_000_000).unwrap();
    collector.collect_process_info(0).unwrap();
    assert_eq!(collector.refresh_generation(), 0);
    collector.force_refresh(1).unwrap();
    assert_eq!(collector.refresh_generation(), 1);
    assert_eq!(collector.source().refreshes, 1);
    collector.collect_system_snapshot(2, 1_700_000_000_000).unwrap();
    collector.collect_process_info(2).unwrap();
    let source = collector.source();
    assert_eq!(source.cpu_reads, 2);
    assert_eq!(source.memory_reads, 2);
    assert_eq!(source.disk_reads, 2);
    assert_eq!(source.system_reads, 2);
    assert_eq!(source.network_reads, 2);
    assert_eq!(source.process_reads, 2);
}

#[test]
fn failed_refresh_keeps_the_cache() {
    let source = CountingSource { fail_refresh: true, ..CountingSource::default() };
    let mut collector = CachedSystemCollector::new(source, 10_000, 0);
    collector.get_cached_cpu_info(0).unwrap();
    assert!(collector.force_refresh(1).is_err());
    assert_eq!(collector.refresh_generation(), 0);
    collector.get_cached_cpu_info(2).unwrap();
    assert_eq!(collector.source().cpu_reads, 1);
}

#[test]
fn refresh_if_needed_waits_for_the_duration() {
    let mut collector = CachedSystemCollector::new(CountingSource::default(), 1000, 0);
    collector.refresh_if_needed(1000).unwrap();
    assert_eq!(collector.refresh_generation(), 0);
    collector.refresh_if_needed(1001).unwrap();
    assert_eq!(collector.refresh_generation(), 1);
}

#[test]
fn failed_read_is_returned_and_not_cached() {
    let source = CountingSource { fail_cpu: true, ..CountingSource::default() };
    let mut collector = CachedSystemCollector::new(source, 1000, 0);
    assert!(matches!(collector.get_cached_cpu_info(0), Err(SystemMonitorError::SystemInfo(_))));
    assert!(collector.get_cached_cpu_info(1).is_err());
    assert_eq!(collector.source().cpu_reads, 2);
    assert!(collector.collect_system_snapshot(2, 1_700_000_000_000).is_err());
    assert!(collector.get_system_stats(3).is_err());
}

#[test]
fn network_failure_is_left_out_of_the_snapshot() {
    let source = CountingSource { fail_network: true, ..CountingSource::default() };
    let mut collector = CachedSystemCollector::new(source, 1000, 0);
    let snapshot = collector.collect_system_snapshot(0, 1_700_000_000_000).unwrap();
    assert!(snapshot.networks.is_none());
    assert_eq!(snapshot.cpu.global_usage, 1000);
    assert_eq!(snapshot.disks.len(), 2);
    assert_eq!(snapshot.system.hostname, "box");
}

#[test]
fn snapshot_holds_networks_when_readable() {
    let mut collector = CachedSystemCollector::new(CountingSource::default(), 1000, 0);
    let snapshot = collector.collect_system_snapshot(0, 1_700_000_000_000).unwrap();
    assert_eq!(snapshot.networks.unwrap()[0].name, "eth0");
}

#[test]
fn system_stats_take_the_fullest_disk() {
    let mut collector = CachedSystemCollector::new(CountingSource::default(), 1000, 0);
    let stats = collector.get_system_stats(0).unwrap();
    assert_eq!(stats.cpu_usage_avg, 1000);
    assert_eq!(stats.memory_usage_percent, 4000);
    assert_eq!(stats.disk_usage_max, 9000);
    assert_eq!(stats.active_processes, 0);
    collector.get_system_stats(10).unwrap();
    assert_eq!(collector.source().cpu_reads, 1);
    assert_eq!(collector.source().disk_reads, 1);
}

#[test]
fn batch_of_five_pauses_after_second_and_fourth() {
    let (collect, pause) = (BatchStep::Collect, BatchStep::Pause);
    assert_eq!(batch_schedule(5, 2), vec![collect, collect, pause, collect, collect, pause, collect]);

    let collector = CachedSystemCollector::new(CountingSource::default(), 0, 0);
    let mut batch = BatchSystemCollector::new(collector, 2);
    let mut snapshots = Vec::new();
    let mut pauses_after = Vec::new();
    let mut now = 0u64;
    for step in batch.schedule(5) {
        match step {
            BatchStep::Collect => {
                snapshots.push(batch.collect_one(now, 42).unwrap());
                now += 1;
            }
            BatchStep::Pause => pauses_after.push(snapshots.len()),
        }
    }
    assert_eq!(snapshots.len(), 5);
    assert_eq!(pauses_after, vec![2, 4]);
}

#[test]
fn empty_batch_does_nothing() {
    assert!(batch_schedule(0, 3).is_empty());
    assert_eq!(batch_schedule(3, 3), vec![BatchStep::Collect, BatchStep::Collect, BatchStep::Collect, BatchStep::Pause]);
}

#[test]
fn process_list_keeps_the_busiest_fifty() {
    let list: Vec<ProcessInfo> = (0..60u32)
        .map(|i| ProcessInfo {
            pid: i,
            name: format!("p{}", i),
            cpu_usage: (i * 37) % 61,
            memory_usage: 0,
            status: "Run".to_string(),
        })
        .collect();
    let top = system_monitor::collector::top_processes(list);
    assert_eq!(top.len(), 50);
    for pair in top.windows(2) {
        assert!(pair[0].cpu_usage >= pair[1].cpu_usage);
    }
    assert_eq!(top[0].cpu_usage, 60);
    assert_eq!(top[49].cpu_usage, 10);
}

fn batch_source_cpu_reads(batch: &BatchSystemCollector<CountingSource>) -> u32 {
    batch.cached_collector().source().cpu_reads
}

#[test]
fn batch_run_pauses_between_batches() {
    let collector = CachedSystemCollector::new(CountingSource::default(), 0, 0);
    let mut batch = BatchSystemCollector::new(collector, 2);
    let mut run = batch.start(5);
    let mut pauses = 0;
    let mut now = 0u64;
    loop {
        now += 1;
        match batch.proceed(&mut run, now, 7).unwrap() {
            BatchProgress::Paused => pauses += 1,
            BatchProgress::Finished => break,
        }
    }
    assert_eq!(pauses, 2);
    // within one call of `proceed` the clock does not move, so the cache
    // serves the later snapshots of that call: one read per call
    assert_eq!(batch_source_cpu_reads(&batch), 3);
    let snapshots = run.into_snapshots();
    assert_eq!(snapshots.len(), 5);
    assert_eq!(snapshots[0].timestamp_ms, 7);
}

#[test]
fn batch_run_stops_at_first_failure() {
    let source = CountingSource { fail_cpu: true, ..CountingSource::default() };
    let mut batch = BatchSystemCollector::new(CachedSystemCollector::new(source, 0, 0), 2);
    let mut run = batch.start(5);
    assert!(matches!(batch.proceed(&mut run, 1, 0), Err(SystemMonitorError::SystemInfo(_))));
    assert_eq!(batch_source_cpu_reads(&batch), 1);
    assert_eq!(batch.cached_collector().source().memory_reads, 0);
    assert_eq!(run.into_snapshots().len(), 0);
}

#[test]
fn snapshot_carries_the_given_timestamp() {
    let mut collector = CachedSystemCollector::new(CountingSource::default(), 1000, 0);
    let snapshot = collector.collect_system_snapshot(0, -5).unwrap();
    assert_eq!(snapshot.timestamp_ms, -5);
}

#[test]
fn failed_snapshot_does_not_read_network() {
    let source = CountingSource { fail_cpu: true, ..CountingSource::default() };
    let mut collector = CachedSystemCollector::new(source, 1000, 0);
    assert!(collector.collect_system_snapshot(0, 0).is_err());
    assert_eq!(collector.source().network_reads, 0);
    assert_eq!(collector.source().memory_reads, 0);
}

#[test]
fn failed_refresh_is_still_a_source_call() {
    let source = CountingSource { fail_refresh: true, ..CountingSource::default() };
    let mut collector = CachedSystemCollector::new(source, 1000, 0);
    assert!(collector.force_refresh(0).is_err());
    assert_eq!(collector.refresh_generation(), 0);
}
