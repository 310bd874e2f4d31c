//! The values a snapshot source delivers, and what is derived from a snapshot.
//!
//! Percentages are fixed-point hundredths (`2550` is 25.5 %), byte counts are
//! `u64`, frequencies are MHz.

use vstd::prelude::*;
use crate::text::{size_string, size_text, duration_string, duration_text};

verus! {

/// A value the cache can hand out as an exact copy.
pub trait Snapshot: View + Sized {
    /// A copy with the same view.
    fn copy(&self) -> (r: Self)
        ensures
            r@ == self@;
}

/// One CPU core.
#[derive(Debug, PartialEq, Eq)]
pub struct CpuCoreInfo {
    pub name: String,
    /// Usage in hundredths of a percent.
    pub usage: u32,
    /// Frequency in MHz.
    pub frequency: u64,
}

/// CPU usage as a whole and per core.
#[derive(Debug, PartialEq, Eq)]
pub struct CpuInfo {
    /// Usage in hundredths of a percent.
    pub global_usage: u32,
    pub cores: Vec<CpuCoreInfo>,
    pub core_count: usize,
}

/// Memory figures in bytes, and usage in hundredths of a percent.
#[derive(Clone, Copy, Debug, PartialEq, Eq)]
pub struct MemoryInfo {
    pub total: u64,
    pub used: u64,
    pub available: u64,
    pub free: u64,
    pub usage_percent: u32,
}

/// One mounted disk.
#[derive(Debug, PartialEq, Eq)]
pub struct DiskInfo {
    pub name: String,
    pub mount_point: String,
    pub file_system: String,
    pub total_space: u64,
    pub available_space: u64,
    pub used_space: u64,
    /// Usage in hundredths of a percent.
    pub usage_percent: u32,
}

/// One process.
#[derive(Debug, PartialEq, Eq)]
pub struct ProcessInfo {
    pub pid: u32,
    pub name: String,
    /// CPU usage in hundredths of a percent.
    pub cpu_usage: u32,
    /// Resident memory in bytes.
    pub memory_usage: u64,
    pub status: String,
}

/// Operating system and host identity.
#[derive(Debug, PartialEq, Eq)]
pub struct SystemInfo {
    pub os_name: String,
    pub os_version: String,
    pub kernel_version: String,
    pub hostname: String,
    /// Seconds since boot.
    pub uptime: u64,
    /// Boot time as a Unix timestamp.
    pub boot_time: u64,
}

/// Traffic counters of one network interface.
#[derive(Debug, PartialEq, Eq)]
pub struct NetworkInfo {
    pub name: String,
    pub bytes_received: u64,
    pub bytes_sent: u64,
    pub packets_received: u64,
    pub packets_sent: u64,
    pub errors_received: u64,
    pub errors_sent: u64,
}

impl View for CpuCoreInfo {
    type V = CpuCoreInfo;

    open spec fn view(&self) -> CpuCoreInfo {
        *self
    }
}

impl Snapshot for CpuCoreInfo {
    fn copy(&self) -> (r: Self) {
        CpuCoreInfo { name: self.name.clone(), usage: self.usage, frequency: self.frequency }
    }
}

impl View for CpuInfo {
    type V = (u32, Seq<CpuCoreInfo>, usize);

    open spec fn view(&self) -> (u32, Seq<CpuCoreInfo>, usize) {
        (self.global_usage, self.cores@, self.core_count)
    }
}

impl Snapshot for CpuInfo {
    fn copy(&self) -> (r: Self) {
        let cores = copy_all(&self.cores);
        assert(cores@ =~= self.cores@);
        CpuInfo { global_usage: self.global_usage, cores, core_count: self.core_count }
    }
}

impl View for MemoryInfo {
    type V = MemoryInfo;

    open spec fn view(&self) -> MemoryInfo {
        *self
    }
}

impl Snapshot for MemoryInfo {
    fn copy(&self) -> (r: Self) {
        *self
    }
}

impl View for DiskInfo {
    type V = DiskInfo;

    open spec fn view(&self) -> DiskInfo {
        *self
    }
}

impl Snapshot for DiskInfo {
    fn copy(&self) -> (r: Self) {
        DiskInfo {
            name: self.name.clone(),
            mount_point: self.mount_point.clone(),
            file_system: self.file_system.clone(),
            total_space: self.total_space,
            available_space: self.available_space,
            used_space: self.used_space,
            usage_percent: self.usage_percent,
        }
    }
}

impl View for ProcessInfo {
    type V = ProcessInfo;

    open spec fn view(&self) -> ProcessInfo {
        *self
    }
}

impl Snapshot for ProcessInfo {
    fn copy(&self) -> (r: Self) {
        ProcessInfo {
            pid: self.pid,
            name: self.name.clone(),
            cpu_usage: self.cpu_usage,
            memory_usage: self.memory_usage,
            status: self.status.clone(),
        }
    }
}

impl View for SystemInfo {
    type V = SystemInfo;

    open spec fn view(&self) -> SystemInfo {
        *self
    }
}

impl Snapshot for SystemInfo {
    fn copy(&self) -> (r: Self) {
        SystemInfo {
            os_name: self.os_name.clone(),
            os_version: self.os_version.clone(),
            kernel_version: self.kernel_version.clone(),
            hostname: self.hostname.clone(),
            uptime: self.uptime,
            boot_time: self.boot_time,
        }
    }
}

impl View for NetworkInfo {
    type V = NetworkInfo;

    open spec fn view(&self) -> NetworkInfo {
        *self
    }
}

impl Snapshot for NetworkInfo {
    fn copy(&self) -> (r: Self) {
        NetworkInfo {
            name: self.name.clone(),
            bytes_received: self.bytes_received,
            bytes_sent: self.bytes_sent,
            packets_received: self.packets_received,
            packets_sent: self.packets_sent,
            errors_received: self.errors_received,
            errors_sent: self.errors_sent,
        }
    }
}

impl Snapshot for Vec<DiskInfo> {
    fn copy(&self) -> (r: Self) {
        let r = copy_all(self);
        assert(r@ =~= self@);
        r
    }
}

impl Snapshot for Vec<ProcessInfo> {
    fn copy(&self) -> (r: Self) {
        let r = copy_all(self);
        assert(r@ =~= self@);
        r
    }
}

impl Snapshot for Vec<NetworkInfo> {
    fn copy(&self) -> (r: Self) {
        let r = copy_all(self);
        assert(r@ =~= self@);
        r
    }
}

/// An element-by-element copy of a list.
pub fn copy_all<T: Snapshot>(v: &Vec<T>) -> (r: Vec<T>)
    ensures
        r@.len() == v@.len(),
        forall|i: int| 0 <= i < v@.len() ==> (#[trigger] r@[i])@ == v@[i]@,
{
    let mut out: Vec<T> = Vec::with_capacity(v.len());
    let mut i: usize = 0;
    while i < v.len()
        invariant
            i <= v@.len(),
            out@.len() == i,
            forall|j: int| 0 <= j < i ==> (#[trigger] out@[j])@ == v@[j]@,
        decreases v@.len() - i,
    {
        let item = v[i].copy();
        out.push(item);
        i = i + 1;
    }
    out
}

/// A full snapshot of the host.
#[derive(Debug)]
pub struct SystemSnapshot {
    /// Wall-clock time of the snapshot, in milliseconds since the Unix epoch.
    pub timestamp_ms: i64,
    pub cpu: CpuInfo,
    pub memory: MemoryInfo,
    pub disks: Vec<DiskInfo>,
    pub system: SystemInfo,
    /// Interface counters, absent when they could not be read.
    pub networks: Option<Vec<NetworkInfo>>,
}

/// The largest disk usage, zero without disks.
pub open spec fn max_disk_usage(disks: Seq<DiskInfo>) -> nat
    decreases disks.len(),
{
    if disks.len() == 0 {
        0
    } else {
        let rest = max_disk_usage(disks.drop_last());
        let u = disks.last().usage_percent as nat;
        if u > rest {
            u
        } else {
            rest
        }
    }
}

/// Weighted load: 40 % CPU, 40 % memory, 20 % the fullest disk, rounded down.
pub open spec fn load_score(cpu: nat, memory: nat, disk: nat) -> nat {
    (4 * cpu + 4 * memory + 2 * disk) / 10
}

/// The health band of a load score (hundredths of a percent).
pub open spec fn health_of(score: nat) -> SystemHealthStatus {
    if score < 3000 {
        SystemHealthStatus::Excellent
    } else if score < 5000 {
        SystemHealthStatus::Good
    } else if score < 7000 {
        SystemHealthStatus::Fair
    } else if score < 8500 {
        SystemHealthStatus::Poor
    } else {
        SystemHealthStatus::Critical
    }
}

/// The largest usage among `disks`, zero without disks.
pub fn max_disk_usage_of(disks: &Vec<DiskInfo>) -> (r: u32)
    ensures
        r == max_disk_usage(disks@),
{
    let mut best: u32 = 0;
    let mut i: usize = 0;
    while i < disks.len()
        invariant
            i <= disks@.len(),
            best == max_disk_usage(disks@.take(i as int)),
        decreases disks@.len() - i,
    {
        assert(disks@.take(i + 1).drop_last() =~= disks@.take(i as int));
        let u = disks[i].usage_percent;
        if u > best {
            best = u;
        }
        i = i + 1;
    }
    assert(disks@.take(disks@.len() as int) =~= disks@);
    best
}

impl SystemSnapshot {
    /// A snapshot of the given parts, stamped `timestamp_ms` (wall-clock
    /// milliseconds since the Unix epoch, read by the caller).
    pub fn new(
        timestamp_ms: i64,
        cpu: CpuInfo,
        memory: MemoryInfo,
        disks: Vec<DiskInfo>,
        system: SystemInfo,
        networks: Option<Vec<NetworkInfo>>,
    ) -> (r: Self)
        ensures
            r.timestamp_ms == timestamp_ms,
            r.cpu == cpu,
            r.memory == memory,
            r.disks == disks,
            r.system == system,
            r.networks == networks,
    {
        SystemSnapshot { timestamp_ms, cpu, memory, disks, system, networks }
    }

    /// Overall load in hundredths of a percent: 40 % CPU, 40 % memory and
    /// 20 % the fullest disk, rounded down.
    pub fn calculate_system_load_score(&self) -> (r: u32)
        ensures
            r == load_score(
                self.cpu.global_usage as nat,
                self.memory.usage_percent as nat,
                max_disk_usage(self.disks@),
            ),
    {
        let disk = max_disk_usage_of(&self.disks) as u64;
        let weighted = 4 * self.cpu.global_usage as u64 + 4 * self.memory.usage_percent as u64 + 2
            * disk;
        (weighted / 10) as u32
    }

    /// The health band of the load score.
    pub fn get_health_status(&self) -> (r: SystemHealthStatus)
        ensures
            r == health_of(
                load_score(
                    self.cpu.global_usage as nat,
                    self.memory.usage_percent as nat,
                    max_disk_usage(self.disks@),
                ),
            ),
    {
        let score = self.calculate_system_load_score();
        if score < 3000 {
            SystemHealthStatus::Excellent
        } else if score < 5000 {
            SystemHealthStatus::Good
        } else if score < 7000 {
            SystemHealthStatus::Fair
        } else if score < 8500 {
            SystemHealthStatus::Poor
        } else {
            SystemHealthStatus::Critical
        }
    }
}

/// Health bands of the load score.
#[derive(Clone, Copy, Debug, PartialEq, Eq, Structural)]
pub enum SystemHealthStatus {
    /// Below 30 %.
    Excellent,
    /// 30 % to 50 %.
    Good,
    /// 50 % to 70 %.
    Fair,
    /// 70 % to 85 %.
    Poor,
    /// 85 % and above.
    Critical,
}

impl SystemHealthStatus {
    /// A short description of the band.
    pub fn description(&self) -> (r: &'static str)
        ensures
            r@ == match *self {
                SystemHealthStatus::Excellent => "系统运行优秀"@,
                SystemHealthStatus::Good => "系统运行良好"@,
                SystemHealthStatus::Fair => "系统运行一般"@,
                SystemHealthStatus::Poor => "系统负载较高"@,
                SystemHealthStatus::Critical => "系统负载严重"@,
            },
    {
        match self {
            SystemHealthStatus::Excellent => "系统运行优秀",
            SystemHealthStatus::Good => "系统运行良好",
            SystemHealthStatus::Fair => "系统运行一般",
            SystemHealthStatus::Poor => "系统负载较高",
            SystemHealthStatus::Critical => "系统负载严重",
        }
    }
}

/// Byte counts as text.
pub struct MemoryUnit;

impl MemoryUnit {
    /// A byte count in B, KB, MB, GB or TB: whole bytes as they are, larger
    /// units with one decimal place.
    pub fn bytes_to_human_readable(bytes: u64) -> (r: String)
        ensures
            r@ == size_text(bytes as nat, 4),
    {
        size_string(bytes, 4)
    }
}

/// Durations as text.
pub struct TimeFormatter;

impl TimeFormatter {
    /// A duration in seconds as text, by its largest non-zero part.
    pub fn seconds_to_human_readable(seconds: u64) -> (r: String)
        ensures
            r@ == duration_text(seconds as nat),
    {
        duration_string(seconds)
    }
}

/// `used` as a share of `total` in hundredths of a percent, rounded down
/// (zero when `total` is zero, at most `u32::MAX`).
pub open spec fn usage_share(used: nat, total: nat) -> nat {
    if total == 0 {
        0
    } else if used * 10000 / total > u32::MAX {
        u32::MAX as nat
    } else {
        used * 10000 / total
    }
}

/// `used` as a share of `total` in hundredths of a percent, rounded down.
pub fn usage_percent_of(used: u64, total: u64) -> (r: u32)
    ensures
        r == usage_share(used as nat, total as nat),
{
    if total == 0 {
        return 0;
    }
    let share = used as u128 * 10000 / total as u128;
    if share > u32::MAX as u128 {
        u32::MAX
    } else {
        share as u32
    }
}

} // verus!
