//! The integer parts of the application configuration.

use vstd::prelude::*;
use vstd::string::*;
use crate::error::SystemMonitorError;

verus! {

/// What is sampled, and how often.
#[derive(Clone, Copy, Debug, PartialEq, Eq, Structural)]
pub struct MonitoringConfig {
    /// Sampling interval in milliseconds.
    pub refresh_interval_ms: u64,
    pub enable_cpu_monitoring: bool,
    pub enable_memory_monitoring: bool,
    pub enable_disk_monitoring: bool,
    pub enable_process_monitoring: bool,
    /// Points of CPU history to keep.
    pub cpu_history_points: usize,
    /// Points of memory history to keep.
    pub memory_history_points: usize,
}

/// Colour scheme preference.
#[derive(Clone, Copy, Debug, PartialEq, Eq, Structural)]
pub enum Theme {
    Light,
    Dark,
    Auto,
}

/// Caching and threading.
#[derive(Clone, Copy, Debug, PartialEq, Eq, Structural)]
pub struct PerformanceConfig {
    pub enable_caching: bool,
    pub cache_size_mb: usize,
    pub enable_multithreading: bool,
    pub worker_threads: usize,
}

impl Default for MonitoringConfig {
    fn default() -> (r: Self)
        ensures
            r.refresh_interval_ms == 1000,
            r.enable_cpu_monitoring,
            r.enable_memory_monitoring,
            r.enable_disk_monitoring,
            !r.enable_process_monitoring,
            r.cpu_history_points == 60,
            r.memory_history_points == 60,
    {
        MonitoringConfig {
            refresh_interval_ms: 1000,
            enable_cpu_monitoring: true,
            enable_memory_monitoring: true,
            enable_disk_monitoring: true,
            enable_process_monitoring: false,
            cpu_history_points: 60,
            memory_history_points: 60,
        }
    }
}

/// The sampling settings are usable: an interval of 100 to 10000 ms and 1 to
/// 1000 CPU history points.
pub open spec fn monitoring_valid(c: MonitoringConfig) -> bool {
    &&& 100 <= c.refresh_interval_ms <= 10000
    &&& 1 <= c.cpu_history_points <= 1000
}

impl MonitoringConfig {
    /// Accepts the settings exactly when `monitoring_valid` holds; otherwise a
    /// `Config` error naming the first bound broken.
    pub fn validate(&self) -> (r: Result<(), SystemMonitorError>)
        ensures
            r is Ok <==> monitoring_valid(*self),
            r is Err ==> r->Err_0 is Config,
    {
        if self.refresh_interval_ms < 100 || self.refresh_interval_ms > 10000 {
            return Err(SystemMonitorError::Config(String::from_str("刷新间隔必须在100-10000毫秒之间")));
        }
        if self.cpu_history_points == 0 || self.cpu_history_points > 1000 {
            return Err(SystemMonitorError::Config(String::from_str("CPU历史数据点数量必须在1-1000之间")));
        }
        Ok(())
    }
}

/// Relies on `num_cpus::get`: the number of usable CPUs, documented to be at least one.
#[verifier::external_body]
fn usable_cpus() -> (r: usize)
    ensures
        r >= 1,
{
    num_cpus::get()
}

impl Default for PerformanceConfig {
    fn default() -> (r: Self)
        ensures
            r.enable_caching,
            r.cache_size_mb == 64,
            r.enable_multithreading,
            1 <= r.worker_threads <= 4,
    {
        let cpus = usable_cpus();
        PerformanceConfig {
            enable_caching: true,
            cache_size_mb: 64,
            enable_multithreading: true,
            worker_threads: if cpus < 4 {
                cpus
            } else {
                4
            },
        }
    }
}

} // verus!
