//! A per-kind, time-bounded cache in front of a snapshot source.
//!
//! Time is a monotonic clock in milliseconds that the caller reads and
//! passes in. A slot written at `t` is fresh at `now` while `now - t` is at
//! most the cache duration (a clock reading before `t` counts as no time
//! elapsed). A fresh slot is served without touching the source; a stale one
//! is read exactly once and overwritten on success. A failed read leaves the
//! slot as it was and is handed back unretried.

use vstd::prelude::*;
use vstd::multiset::Multiset;
use crate::error::SystemMonitorError;
use crate::info::{
    Snapshot, CpuInfo, MemoryInfo, DiskInfo, ProcessInfo, SystemInfo, NetworkInfo, SystemSnapshot,
    max_disk_usage, max_disk_usage_of,
};

verus! {

/// The kinds of data the source delivers, one cache slot each.
#[derive(Clone, Copy, Debug, PartialEq, Eq, Structural)]
pub enum MetricKind {
    Cpu,
    Memory,
    Disk,
    Process,
    System,
    Network,
}

/// The host-introspection capability the cache sits in front of. Each read
/// may block and may fail; `refresh_all` brings all of the source's state up
/// to date at once.
pub trait SnapshotSource {
    fn refresh_all(&mut self) -> Result<(), SystemMonitorError>;

    fn read_cpu(&mut self) -> Result<CpuInfo, SystemMonitorError>;

    fn read_memory(&mut self) -> Result<MemoryInfo, SystemMonitorError>;

    fn read_disks(&mut self) -> Result<Vec<DiskInfo>, SystemMonitorError>;

    fn read_processes(&mut self) -> Result<Vec<ProcessInfo>, SystemMonitorError>;

    fn read_system_info(&mut self) -> Result<SystemInfo, SystemMonitorError>;

    fn read_network(&mut self) -> Result<Vec<NetworkInfo>, SystemMonitorError>;
}

/// Derived figures in hundredths of a percent.
#[derive(Clone, Copy, Debug, PartialEq, Eq, Structural)]
pub struct SystemStats {
    pub cpu_usage_avg: u32,
    pub memory_usage_percent: u32,
    /// The fullest disk's usage, zero without disks.
    pub disk_usage_max: u32,
    /// Not provided by `get_system_stats`, which counts no processes: zero.
    pub active_processes: usize,
}

/// Time from `stamp` to `now`; zero if the clock reads earlier than `stamp`.
pub open spec fn elapsed(stamp: u64, now: u64) -> int {
    if now >= stamp {
        now - stamp
    } else {
        0
    }
}

/// The slot holds a value whose age at `now` is at most `duration`.
pub open spec fn fresh_at<T>(slot: Option<(u64, T)>, now: u64, duration: u64) -> bool {
    match slot {
        Some(e) => elapsed(e.0, now) <= duration,
        None => false,
    }
}

/// The effect of a cached get of `kind` at `now`: a fresh slot is returned
/// as it is, with no read; otherwise the source is read once, and a value it
/// returns is stored with stamp `now`, while an error leaves the slot alone.
pub open spec fn cached_get<T: View>(
    old_slot: Option<(u64, T)>,
    old_reads: Seq<MetricKind>,
    now: u64,
    duration: u64,
    kind: MetricKind,
    r: Result<T, SystemMonitorError>,
    new_slot: Option<(u64, T)>,
    new_reads: Seq<MetricKind>,
) -> bool {
    if fresh_at(old_slot, now, duration) {
        &&& r is Ok
        &&& r->Ok_0@ == old_slot->Some_0.1@
        &&& new_slot == old_slot
        &&& new_reads == old_reads
    } else {
        &&& new_reads == old_reads.push(kind)
        &&& match r {
            Ok(v) => new_slot is Some && new_slot->Some_0.0 == now && new_slot->Some_0.1@ == v@,
            Err(_) => new_slot == old_slot,
        }
    }
}

/// A fresh slot's value, copied out.
fn fresh_copy<T: Snapshot>(slot: &Option<(u64, T)>, now: u64, duration: u64) -> (r: Option<T>)
    ensures
        fresh_at(*slot, now, duration) ==> r is Some && r->Some_0@ == slot->Some_0.1@,
        !fresh_at(*slot, now, duration) ==> r is None,
{
    match slot {
        Some((stamp, value)) => {
            let age = if now >= *stamp {
                now - *stamp
            } else {
                0
            };
            if age <= duration {
                Some(value.copy())
            } else {
                None
            }
        },
        None => None,
    }
}

/// Stores a successful read in the slot with stamp `now`, and hands the read back.
fn store<T: Snapshot>(slot: &mut Option<(u64, T)>, read: Result<T, SystemMonitorError>, now: u64) -> (r:
    Result<T, SystemMonitorError>)
    ensures
        r == read,
        match read {
            Ok(v) => *final(slot) is Some && final(slot)->Some_0.0 == now && final(slot)->Some_0.1@
                == v@,
            Err(_) => *final(slot) == *old(slot),
        },
{
    match read {
        Ok(value) => {
            *slot = Some((now, value.copy()));
            Ok(value)
        },
        Err(e) => Err(e),
    }
}

/// The most processes a process list keeps.
pub const PROCESS_LIST_LIMIT: usize = 50;

/// Processes ordered by descending CPU usage.
pub open spec fn busiest_first(s: Seq<ProcessInfo>) -> bool {
    forall|i: int, j: int| 0 <= i <= j < s.len() ==> #[trigger] s[i].cpu_usage >= #[trigger] s[j].cpu_usage
}

/// `r` is the first `PROCESS_LIST_LIMIT` (or all) processes of some
/// reordering of `list` by descending CPU usage.
pub open spec fn ranked_from(r: Seq<ProcessInfo>, list: Seq<ProcessInfo>) -> bool {
    &&& r.len() == if list.len() < PROCESS_LIST_LIMIT { list.len() } else { PROCESS_LIST_LIMIT as nat }
    &&& busiest_first(r)
    &&& exists|s: Seq<ProcessInfo>|
        s.to_multiset() == list.to_multiset() && busiest_first(s) && r == s.take(r.len() as int)
}

/// The busiest processes first, at most `PROCESS_LIST_LIMIT` of them.
pub fn top_processes(list: Vec<ProcessInfo>) -> (r: Vec<ProcessInfo>)
    ensures
        ranked_from(r@, list@),
{
    broadcast use vstd::seq_lib::group_to_multiset_ensures;

    let ghost given = list@;
    let mut rest = list;
    let mut sorted: Vec<ProcessInfo> = Vec::new();
    while rest.len() > 0
        invariant
            sorted@.to_multiset().add(rest@.to_multiset()) == given.to_multiset(),
            sorted@.len() + rest@.len() == given.len(),
            busiest_first(sorted@),
        decreases rest@.len(),
    {
        let ghost before = rest@;
        let item = rest.pop().unwrap();
        assert(before == rest@.push(item));
        let mut p: usize = 0;
        while p < sorted.len() && sorted[p].cpu_usage >= item.cpu_usage
            invariant
                p <= sorted@.len(),
                forall|k: int| 0 <= k < p ==> #[trigger] sorted@[k].cpu_usage >= item.cpu_usage,
            decreases sorted@.len() - p,
        {
            p = p + 1;
        }
        let ghost old_sorted = sorted@;
        let ghost moved = item;
        sorted.insert(p, item);
        assert(busiest_first(sorted@)) by {
            assert forall|i: int, j: int| 0 <= i <= j < sorted@.len() implies #[trigger] sorted@[i].cpu_usage
                >= #[trigger] sorted@[j].cpu_usage by {
                if p < old_sorted.len() {
                    assert(old_sorted[p as int].cpu_usage < item.cpu_usage);
                }
                if i < p && j > p {
                    assert(old_sorted[i].cpu_usage >= old_sorted[j - 1].cpu_usage);
                } else if i > p {
                    assert(old_sorted[i - 1].cpu_usage >= old_sorted[j - 1].cpu_usage);
                } else if i == p && j > p {
                    assert(old_sorted[p as int].cpu_usage >= old_sorted[j - 1].cpu_usage);
                } else if j < p {
                    assert(old_sorted[i].cpu_usage >= old_sorted[j].cpu_usage);
                }
            }
        }
        proof {
            assert(sorted@ == old_sorted.insert(p as int, moved));
            vstd::seq_lib::to_multiset_insert(old_sorted, p as int, moved);
            vstd::seq_lib::to_multiset_build(rest@, moved);
        }
        assert(sorted@.to_multiset().add(rest@.to_multiset()) =~= old_sorted.to_multiset().add(
            before.to_multiset(),
        ));
    }
    let ghost full = sorted@;
    assert(rest@.to_multiset() =~= Multiset::empty());
    assert(full.to_multiset() =~= given.to_multiset());
    sorted.truncate(PROCESS_LIST_LIMIT);
    assert(sorted@ == full.take(sorted@.len() as int));
    sorted
}

/// One slot per kind.
struct CollectorCache {
    cpu_info: Option<(u64, CpuInfo)>,
    memory_info: Option<(u64, MemoryInfo)>,
    disk_info: Option<(u64, Vec<DiskInfo>)>,
    process_info: Option<(u64, Vec<ProcessInfo>)>,
    system_info: Option<(u64, SystemInfo)>,
    network_info: Option<(u64, Vec<NetworkInfo>)>,
}

impl CollectorCache {
    fn new() -> (r: Self)
        ensures
            r.cpu_info is None,
            r.memory_info is None,
            r.disk_info is None,
            r.process_info is None,
            r.system_info is None,
            r.network_info is None,
    {
        CollectorCache {
            cpu_info: None,
            memory_info: None,
            disk_info: None,
            process_info: None,
            system_info: None,
            network_info: None,
        }
    }
}

/// A snapshot source behind a cache with one slot per kind.
pub struct CachedSystemCollector<S> {
    source: S,
    cache: CollectorCache,
    cache_duration: u64,
    last_refresh: u64,
    refresh_generation: u64,
    reads: Ghost<Seq<MetricKind>>,
    refreshes: Ghost<nat>,
}

impl<S: SnapshotSource> CachedSystemCollector<S> {
    pub closed spec fn cpu_slot(&self) -> Option<(u64, CpuInfo)> {
        self.cache.cpu_info
    }

    pub closed spec fn memory_slot(&self) -> Option<(u64, MemoryInfo)> {
        self.cache.memory_info
    }

    pub closed spec fn disk_slot(&self) -> Option<(u64, Vec<DiskInfo>)> {
        self.cache.disk_info
    }

    pub closed spec fn process_slot(&self) -> Option<(u64, Vec<ProcessInfo>)> {
        self.cache.process_info
    }

    pub closed spec fn system_slot(&self) -> Option<(u64, SystemInfo)> {
        self.cache.system_info
    }

    pub closed spec fn network_slot(&self) -> Option<(u64, Vec<NetworkInfo>)> {
        self.cache.network_info
    }

    /// The cache duration in milliseconds.
    pub closed spec fn duration(&self) -> u64 {
        self.cache_duration
    }

    /// When the last forced refresh happened.
    pub closed spec fn refreshed_at(&self) -> u64 {
        self.last_refresh
    }

    /// How many forced refreshes have happened (saturating).
    pub closed spec fn generation(&self) -> u64 {
        self.refresh_generation
    }

    /// Every per-kind read made of the source, in order.
    pub closed spec fn reads(&self) -> Seq<MetricKind> {
        self.reads@
    }

    /// How many times the whole source has been asked to refresh.
    pub closed spec fn source_refreshes(&self) -> nat {
        self.refreshes@
    }

    /// The slot of `kind` is fresh at `now`.
    pub open spec fn fresh_kind(&self, kind: MetricKind, now: u64) -> bool {
        let d = self.duration();
        match kind {
            MetricKind::Cpu => fresh_at(self.cpu_slot(), now, d),
            MetricKind::Memory => fresh_at(self.memory_slot(), now, d),
            MetricKind::Disk => fresh_at(self.disk_slot(), now, d),
            MetricKind::Process => fresh_at(self.process_slot(), now, d),
            MetricKind::System => fresh_at(self.system_slot(), now, d),
            MetricKind::Network => fresh_at(self.network_slot(), now, d),
        }
    }

    /// The slot of `kind` is the same in `self` and `other`.
    pub open spec fn same_slot(&self, other: &Self, kind: MetricKind) -> bool {
        match kind {
            MetricKind::Cpu => self.cpu_slot() == other.cpu_slot(),
            MetricKind::Memory => self.memory_slot() == other.memory_slot(),
            MetricKind::Disk => self.disk_slot() == other.disk_slot(),
            MetricKind::Process => self.process_slot() == other.process_slot(),
            MetricKind::System => self.system_slot() == other.system_slot(),
            MetricKind::Network => self.network_slot() == other.network_slot(),
        }
    }

    /// The kinds among `kinds` whose slots are stale at `now`, in order.
    pub open spec fn stale_kinds(&self, kinds: Seq<MetricKind>, now: u64) -> Seq<MetricKind>
        decreases kinds.len(),
    {
        if kinds.len() == 0 {
            Seq::empty()
        } else {
            let rest = self.stale_kinds(kinds.drop_last(), now);
            if self.fresh_kind(kinds.last(), now) {
                rest
            } else {
                rest.push(kinds.last())
            }
        }
    }

    /// A composed call over the mandatory `kinds` (taken in order) failed at
    /// `kinds[i]`: the reads made were exactly one of each kind before it
    /// that was stale, then one of `kinds[i]`, which was stale and whose read
    /// failed so its slot is still stale; the kinds before it are fresh, and
    /// the kinds after it were not touched.
    pub open spec fn failed_at(&self, old: &Self, now: u64, kinds: Seq<MetricKind>, i: int) -> bool {
        &&& 0 <= i < kinds.len()
        &&& self.reads() == old.reads() + old.stale_kinds(kinds.take(i), now).push(kinds[i])
        &&& !old.fresh_kind(kinds[i], now)
        &&& !self.fresh_kind(kinds[i], now)
        &&& forall|j: int| 0 <= j < i ==> self.fresh_kind(#[trigger] kinds[j], now)
        &&& forall|j: int| i < j < kinds.len() ==> self.same_slot(old, #[trigger] kinds[j])
    }

    /// A failure of a composed call over `kinds` is one of its mandatory reads failing.
    pub open spec fn composed_failure(&self, old: &Self, now: u64, kinds: Seq<MetricKind>) -> bool {
        exists|i: int| self.failed_at(old, now, kinds, i)
    }

    /// Every one of `kinds` is fresh.
    pub open spec fn all_fresh(&self, kinds: Seq<MetricKind>, now: u64) -> bool {
        forall|j: int| 0 <= j < kinds.len() ==> self.fresh_kind(#[trigger] kinds[j], now)
    }

    /// All slots are empty.
    pub open spec fn all_empty(&self) -> bool {
        &&& self.cpu_slot() is None
        &&& self.memory_slot() is None
        &&& self.disk_slot() is None
        &&& self.process_slot() is None
        &&& self.system_slot() is None
        &&& self.network_slot() is None
    }

    /// `self` and `other` agree on everything but the slot of `kind` and the read log.
    pub open spec fn same_except(&self, other: &Self, kind: MetricKind) -> bool {
        &&& kind != MetricKind::Cpu ==> self.cpu_slot() == other.cpu_slot()
        &&& kind != MetricKind::Memory ==> self.memory_slot() == other.memory_slot()
        &&& kind != MetricKind::Disk ==> self.disk_slot() == other.disk_slot()
        &&& kind != MetricKind::Process ==> self.process_slot() == other.process_slot()
        &&& kind != MetricKind::System ==> self.system_slot() == other.system_slot()
        &&& kind != MetricKind::Network ==> self.network_slot() == other.network_slot()
        &&& self.duration() == other.duration()
        &&& self.refreshed_at() == other.refreshed_at()
        &&& self.generation() == other.generation()
        &&& self.source_refreshes() == other.source_refreshes()
    }

    /// `self` and `other` agree on every slot and on the refresh bookkeeping
    /// (time and generation).
    pub open spec fn same_cache(&self, other: &Self) -> bool {
        &&& self.cpu_slot() == other.cpu_slot()
        &&& self.memory_slot() == other.memory_slot()
        &&& self.disk_slot() == other.disk_slot()
        &&& self.process_slot() == other.process_slot()
        &&& self.system_slot() == other.system_slot()
        &&& self.network_slot() == other.network_slot()
        &&& self.duration() == other.duration()
        &&& self.refreshed_at() == other.refreshed_at()
        &&& self.generation() == other.generation()
    }

    /// A collector over `source` whose slots stay fresh for `cache_duration_ms`,
    /// with all slots empty; `now` is the current clock reading.
    pub fn new(source: S, cache_duration_ms: u64, now: u64) -> (r: Self)
        ensures
            r.all_empty(),
            r.duration() == cache_duration_ms,
            r.refreshed_at() == now,
            r.generation() == 0,
            r.reads() == Seq::<MetricKind>::empty(),
            r.source_refreshes() == 0,
    {
        CachedSystemCollector {
            source,
            cache: CollectorCache::new(),
            cache_duration: cache_duration_ms,
            last_refresh: now,
            refresh_generation: 0,
            reads: Ghost(Seq::empty()),
            refreshes: Ghost(0),
        }
    }

    /// The source behind the cache.
    pub fn source(&self) -> &S {
        &self.source
    }

    /// The number of forced refreshes so far; observers poll it to learn of one.
    pub fn refresh_generation(&self) -> (r: u64)
        ensures
            r == self.generation(),
    {
        self.refresh_generation
    }

    /// Brings the whole source up to date and empties every slot, so that
    /// the next get of any kind reads afresh; records `now` as the last
    /// refresh and signals observers. On a source failure nothing changes.
    pub fn force_refresh(&mut self, now: u64) -> (r: Result<(), SystemMonitorError>)
        ensures
            final(self).reads() == old(self).reads(),
            final(self).duration() == old(self).duration(),
            final(self).source_refreshes() == old(self).source_refreshes() + 1,
            match r {
                Ok(_) => {
                    &&& final(self).all_empty()
                    &&& final(self).refreshed_at() == now
                    &&& final(self).generation() == if old(self).generation() < u64::MAX {
                        old(self).generation() + 1
                    } else {
                        old(self).generation() as int
                    }
                },
                Err(_) => final(self).same_cache(old(self)),
            },
    {
        let refreshed = self.source.refresh_all();
        self.refreshes = Ghost(self.refreshes@ + 1);
        match refreshed {
            Ok(()) => {},
            Err(e) => {
                return Err(e);
            },
        }
        self.cache = CollectorCache::new();
        self.last_refresh = now;
        if self.refresh_generation < u64::MAX {
            self.refresh_generation = self.refresh_generation + 1;
        }
        Ok(())
    }

    /// Forces a refresh when more than the cache duration has passed since the last one.
    pub fn refresh_if_needed(&mut self, now: u64) -> (r: Result<(), SystemMonitorError>)
        ensures
            final(self).reads() == old(self).reads(),
            elapsed(old(self).refreshed_at(), now) <= old(self).duration() ==> r is Ok
                && final(self).same_cache(old(self))
                && final(self).source_refreshes() == old(self).source_refreshes(),
            elapsed(old(self).refreshed_at(), now) > old(self).duration()
                ==> final(self).source_refreshes() == old(self).source_refreshes() + 1,
            elapsed(old(self).refreshed_at(), now) > old(self).duration() && r is Ok
                ==> final(self).all_empty() && final(self).refreshed_at() == now,
            r is Err ==> final(self).same_cache(old(self)),
    {
        let since = if now >= self.last_refresh {
            now - self.last_refresh
        } else {
            0
        };
        if since > self.cache_duration {
            self.force_refresh(now)
        } else {
            Ok(())
        }
    }

    /// CPU figures, from the cache when fresh, else read once from the source.
    pub fn get_cached_cpu_info(&mut self, now: u64) -> (r: Result<CpuInfo, SystemMonitorError>)
        ensures
            cached_get(
                old(self).cpu_slot(),
                old(self).reads(),
                now,
                old(self).duration(),
                MetricKind::Cpu,
                r,
                final(self).cpu_slot(),
                final(self).reads(),
            ),
            final(self).same_except(old(self), MetricKind::Cpu),
    {
        if let Some(v) = fresh_copy(&self.cache.cpu_info, now, self.cache_duration) {
            return Ok(v);
        }
        let read = self.source.read_cpu();
        self.reads = Ghost(self.reads@.push(MetricKind::Cpu));
        store(&mut self.cache.cpu_info, read, now)
    }

    /// Memory figures, from the cache when fresh, else read once from the source.
    pub fn get_cached_memory_info(&mut self, now: u64) -> (r: Result<MemoryInfo, SystemMonitorError>)
        ensures
            cached_get(
                old(self).memory_slot(),
                old(self).reads(),
                now,
                old(self).duration(),
                MetricKind::Memory,
                r,
                final(self).memory_slot(),
                final(self).reads(),
            ),
            final(self).same_except(old(self), MetricKind::Memory),
    {
        if let Some(v) = fresh_copy(&self.cache.memory_info, now, self.cache_duration) {
            return Ok(v);
        }
        let read = self.source.read_memory();
        self.reads = Ghost(self.reads@.push(MetricKind::Memory));
        store(&mut self.cache.memory_info, read, now)
    }

    /// The disk list, from the cache when fresh, else read once from the source.
    pub fn get_cached_disk_info(&mut self, now: u64) -> (r: Result<Vec<DiskInfo>, SystemMonitorError>)
        ensures
            cached_get(
                old(self).disk_slot(),
                old(self).reads(),
                now,
                old(self).duration(),
                MetricKind::Disk,
                r,
                final(self).disk_slot(),
                final(self).reads(),
            ),
            final(self).same_except(old(self), MetricKind::Disk),
    {
        if let Some(v) = fresh_copy(&self.cache.disk_info, now, self.cache_duration) {
            return Ok(v);
        }
        let read = self.source.read_disks();
        self.reads = Ghost(self.reads@.push(MetricKind::Disk));
        store(&mut self.cache.disk_info, read, now)
    }

    /// The busiest processes (at most `PROCESS_LIST_LIMIT`, by descending CPU
    /// usage), from the cache when fresh, else read once from the source.
    pub fn collect_process_info(&mut self, now: u64) -> (r: Result<Vec<ProcessInfo>, SystemMonitorError>)
        ensures
            cached_get(
                old(self).process_slot(),
                old(self).reads(),
                now,
                old(self).duration(),
                MetricKind::Process,
                r,
                final(self).process_slot(),
                final(self).reads(),
            ),
            final(self).same_except(old(self), MetricKind::Process),
            !fresh_at(old(self).process_slot(), now, old(self).duration()) && r is Ok ==> busiest_first(
                r->Ok_0@,
            ) && r->Ok_0@.len() <= PROCESS_LIST_LIMIT,
    {
        if let Some(v) = fresh_copy(&self.cache.process_info, now, self.cache_duration) {
            return Ok(v);
        }
        let read = match self.source.read_processes() {
            Ok(list) => Ok(top_processes(list)),
            Err(e) => Err(e),
        };
        self.reads = Ghost(self.reads@.push(MetricKind::Process));
        store(&mut self.cache.process_info, read, now)
    }

    /// Host identity, from the cache when fresh, else read once from the source.
    pub fn collect_system_info(&mut self, now: u64) -> (r: Result<SystemInfo, SystemMonitorError>)
        ensures
            cached_get(
                old(self).system_slot(),
                old(self).reads(),
                now,
                old(self).duration(),
                MetricKind::System,
                r,
                final(self).system_slot(),
                final(self).reads(),
            ),
            final(self).same_except(old(self), MetricKind::System),
    {
        if let Some(v) = fresh_copy(&self.cache.system_info, now, self.cache_duration) {
            return Ok(v);
        }
        let read = self.source.read_system_info();
        self.reads = Ghost(self.reads@.push(MetricKind::System));
        store(&mut self.cache.system_info, read, now)
    }

    /// Interface counters, from the cache when fresh, else read once from the source.
    pub fn collect_network_info(&mut self, now: u64) -> (r: Result<Vec<NetworkInfo>, SystemMonitorError>)
        ensures
            cached_get(
                old(self).network_slot(),
                old(self).reads(),
                now,
                old(self).duration(),
                MetricKind::Network,
                r,
                final(self).network_slot(),
                final(self).reads(),
            ),
            final(self).same_except(old(self), MetricKind::Network),
    {
        if let Some(v) = fresh_copy(&self.cache.network_info, now, self.cache_duration) {
            return Ok(v);
        }
        let read = self.source.read_network();
        self.reads = Ghost(self.reads@.push(MetricKind::Network));
        store(&mut self.cache.network_info, read, now)
    }

    /// What `get_system_stats` leaves behind: on success the stale ones among
    /// CPU, memory and disks were each read once, the three slots are fresh
    /// and the figures are read off them (this call counts no processes, so
    /// `active_processes` is zero); a failure is the failure of
    /// one of the mandatory reads; a call whose three slots end up fresh
    /// succeeds; and a call whose three slots start fresh reads nothing.
    pub open spec fn stats_outcome(&self, old: &Self, now: u64, r: Result<SystemStats, SystemMonitorError>) -> bool {
        &&& self.reads().len() >= old.reads().len()
        &&& self.duration() == old.duration()
        &&& self.refreshed_at() == old.refreshed_at()
        &&& self.generation() == old.generation()
        &&& self.source_refreshes() == old.source_refreshes()
        &&& self.process_slot() == old.process_slot()
        &&& self.system_slot() == old.system_slot()
        &&& self.network_slot() == old.network_slot()
        &&& match r {
            Ok(st) => {
                &&& self.reads() == old.reads() + old.stale_kinds(stats_kinds(), now)
                &&& self.all_fresh(stats_kinds(), now)
                &&& st.cpu_usage_avg == self.cpu_slot()->Some_0.1.global_usage
                &&& st.memory_usage_percent == self.memory_slot()->Some_0.1.usage_percent
                &&& st.disk_usage_max == max_disk_usage(self.disk_slot()->Some_0.1@)
                &&& st.active_processes == 0
            },
            Err(_) => self.composed_failure(old, now, stats_kinds()),
        }
        &&& self.all_fresh(stats_kinds(), now) ==> r is Ok
        &&& old.all_fresh(stats_kinds(), now) ==> r is Ok && self.reads() == old.reads()
            && self.same_cache(old)
    }

    /// What `collect_system_snapshot` leaves behind: on success the stale ones
    /// among CPU, memory, disks, host identity and interfaces were each read
    /// once, in that order, the four mandatory slots are fresh and the snapshot holds their values, with
    /// interface counters exactly when that slot is fresh; a failure is the
    /// failure of one of the mandatory reads, and then the interface slot is
    /// untouched; a call whose four mandatory slots end up fresh succeeds,
    /// whatever became of the interface read.
    pub open spec fn snapshot_outcome(
        &self,
        old: &Self,
        now: u64,
        timestamp_ms: i64,
        r: Result<SystemSnapshot, SystemMonitorError>,
    ) -> bool {
        &&& self.reads().len() >= old.reads().len()
        &&& self.duration() == old.duration()
        &&& self.refreshed_at() == old.refreshed_at()
        &&& self.generation() == old.generation()
        &&& self.source_refreshes() == old.source_refreshes()
        &&& self.process_slot() == old.process_slot()
        &&& match r {
            Ok(s) => {
                &&& self.reads() == old.reads() + old.stale_kinds(
                    snapshot_kinds().push(MetricKind::Network),
                    now,
                )
                &&& self.all_fresh(snapshot_kinds(), now)
                &&& s.timestamp_ms == timestamp_ms
                &&& s.cpu@ == self.cpu_slot()->Some_0.1@
                &&& s.memory == self.memory_slot()->Some_0.1
                &&& s.disks@ == self.disk_slot()->Some_0.1@
                &&& s.system == self.system_slot()->Some_0.1
                &&& (s.networks is Some <==> self.fresh_kind(MetricKind::Network, now))
                &&& (s.networks is Some ==> s.networks->Some_0@ == self.network_slot()->Some_0.1@)
            },
            Err(_) => {
                &&& self.composed_failure(old, now, snapshot_kinds())
                &&& self.network_slot() == old.network_slot()
            },
        }
        &&& self.all_fresh(snapshot_kinds(), now) ==> r is Ok
        &&& old.all_fresh(snapshot_kinds(), now) ==> r is Ok
    }

    /// CPU usage, memory usage and the fullest disk's usage, each through its
    /// cached get (CPU, then memory, then disks); the first failure is handed
    /// back and nothing after it is read.
    pub fn get_system_stats(&mut self, now: u64) -> (r: Result<SystemStats, SystemMonitorError>)
        ensures
            final(self).stats_outcome(old(self), now, r),
    {
        let ghost s0 = *self;
        let ghost ks = stats_kinds();
        proof {
            assert(ks[0] == MetricKind::Cpu && ks[1] == MetricKind::Memory && ks[2] == MetricKind::Disk);
            assert(s0.stale_kinds(ks.take(0), now) == Seq::<MetricKind>::empty());
        }
        let cpu = match self.get_cached_cpu_info(now) {
            Ok(v) => v,
            Err(e) => {
                proof {
                    lemma_stale_step(&s0, ks, 0, now);
                    assert(self.reads() =~= s0.reads() + s0.stale_kinds(ks.take(0), now).push(ks[0]));
                    assert(self.failed_at(&s0, now, ks, 0));
                }
                return Err(e);
            },
        };
        proof {
            lemma_stale_step(&s0, ks, 0, now);
            assert(self.reads() =~= s0.reads() + s0.stale_kinds(ks.take(1), now));
        }
        let memory = match self.get_cached_memory_info(now) {
            Ok(v) => v,
            Err(e) => {
                proof {
                    lemma_stale_step(&s0, ks, 1, now);
                    assert(self.reads() =~= s0.reads() + s0.stale_kinds(ks.take(1), now).push(ks[1]));
                    assert(self.failed_at(&s0, now, ks, 1));
                }
                return Err(e);
            },
        };
        proof {
            lemma_stale_step(&s0, ks, 1, now);
            assert(self.reads() =~= s0.reads() + s0.stale_kinds(ks.take(2), now));
        }
        let disks = match self.get_cached_disk_info(now) {
            Ok(v) => v,
            Err(e) => {
                proof {
                    lemma_stale_step(&s0, ks, 2, now);
                    assert(self.reads() =~= s0.reads() + s0.stale_kinds(ks.take(2), now).push(ks[2]));
                    assert(self.failed_at(&s0, now, ks, 2));
                }
                return Err(e);
            },
        };
        proof {
            lemma_stale_step(&s0, ks, 2, now);
            assert(ks.take(3) =~= ks);
            assert(self.reads() =~= s0.reads() + s0.stale_kinds(ks, now));
            assert(self.all_fresh(ks, now));
            if s0.all_fresh(ks, now) {
                assert(s0.fresh_kind(ks[0], now) && s0.fresh_kind(ks[1], now) && s0.fresh_kind(ks[2], now));
            }
        }
        Ok(
            SystemStats {
                cpu_usage_avg: cpu.global_usage,
                memory_usage_percent: memory.usage_percent,
                disk_usage_max: max_disk_usage_of(&disks),
                active_processes: 0,
            },
        )
    }

    /// A full snapshot stamped `timestamp_ms`: CPU, memory, disks and host
    /// identity are mandatory and the first failure among them is handed
    /// back, with nothing after it read; interface counters that cannot be
    /// had are left out instead.
    pub fn collect_system_snapshot(&mut self, now: u64, timestamp_ms: i64) -> (r: Result<
        SystemSnapshot,
        SystemMonitorError,
    >)
        ensures
            final(self).snapshot_outcome(old(self), now, timestamp_ms, r),
    {
        let ghost s0 = *self;
        let ghost ks = snapshot_kinds();
        let ghost full = ks.push(MetricKind::Network);
        proof {
            assert(ks[0] == MetricKind::Cpu && ks[1] == MetricKind::Memory && ks[2] == MetricKind::Disk
                && ks[3] == MetricKind::System);
            assert(s0.stale_kinds(ks.take(0), now) == Seq::<MetricKind>::empty());
        }
        let cpu = match self.get_cached_cpu_info(now) {
            Ok(v) => v,
            Err(e) => {
                proof {
                    lemma_stale_step(&s0, ks, 0, now);
                    assert(self.reads() =~= s0.reads() + s0.stale_kinds(ks.take(0), now).push(ks[0]));
                    assert(self.failed_at(&s0, now, ks, 0));
                }
                return Err(e);
            },
        };
        proof {
            lemma_stale_step(&s0, ks, 0, now);
            assert(self.reads() =~= s0.reads() + s0.stale_kinds(ks.take(1), now));
        }
        let memory = match self.get_cached_memory_info(now) {
            Ok(v) => v,
            Err(e) => {
                proof {
                    lemma_stale_step(&s0, ks, 1, now);
                    assert(self.reads() =~= s0.reads() + s0.stale_kinds(ks.take(1), now).push(ks[1]));
                    assert(self.failed_at(&s0, now, ks, 1));
                }
                return Err(e);
            },
        };
        proof {
            lemma_stale_step(&s0, ks, 1, now);
            assert(self.reads() =~= s0.reads() + s0.stale_kinds(ks.take(2), now));
        }
        let disks = match self.get_cached_disk_info(now) {
            Ok(v) => v,
            Err(e) => {
                proof {
                    lemma_stale_step(&s0, ks, 2, now);
                    assert(self.reads() =~= s0.reads() + s0.stale_kinds(ks.take(2), now).push(ks[2]));
                    assert(self.failed_at(&s0, now, ks, 2));
                }
                return Err(e);
            },
        };
        proof {
            lemma_stale_step(&s0, ks, 2, now);
            assert(self.reads() =~= s0.reads() + s0.stale_kinds(ks.take(3), now));
        }
        let system = match self.collect_system_info(now) {
            Ok(v) => v,
            Err(e) => {
                proof {
                    lemma_stale_step(&s0, ks, 3, now);
                    assert(self.reads() =~= s0.reads() + s0.stale_kinds(ks.take(3), now).push(ks[3]));
                    assert(self.failed_at(&s0, now, ks, 3));
                }
                return Err(e);
            },
        };
        proof {
            lemma_stale_step(&s0, ks, 3, now);
            assert(self.reads() =~= s0.reads() + s0.stale_kinds(ks.take(4), now));
        }
        let networks = match self.collect_network_info(now) {
            Ok(v) => Some(v),
            Err(_) => None,
        };
        proof {
            assert(full.take(4) =~= ks.take(4));
            assert(full[4] == MetricKind::Network);
            lemma_stale_step(&s0, full, 4, now);
            assert(full.take(5) =~= full);
            assert(self.reads() =~= s0.reads() + s0.stale_kinds(full, now));
            assert(self.all_fresh(ks, now));
            if s0.all_fresh(ks, now) {
                assert(s0.fresh_kind(ks[0], now) && s0.fresh_kind(ks[1], now));
            }
        }
        Ok(SystemSnapshot::new(timestamp_ms, cpu, memory, disks, system, networks))
    }
}

/// Taking one more kind extends the stale kinds by it when it is stale.
proof fn lemma_stale_step<S: SnapshotSource>(
    c: &CachedSystemCollector<S>,
    kinds: Seq<MetricKind>,
    k: int,
    now: u64,
)
    requires
        0 <= k < kinds.len(),
    ensures
        c.stale_kinds(kinds.take(k + 1), now) == if c.fresh_kind(kinds[k], now) {
            c.stale_kinds(kinds.take(k), now)
        } else {
            c.stale_kinds(kinds.take(k), now).push(kinds[k])
        },
{
    assert(kinds.take(k + 1).drop_last() =~= kinds.take(k));
}

/// The kinds `get_system_stats` reads, in order.
pub open spec fn stats_kinds() -> Seq<MetricKind> {
    seq![MetricKind::Cpu, MetricKind::Memory, MetricKind::Disk]
}

/// The mandatory kinds of a snapshot, in order.
pub open spec fn snapshot_kinds() -> Seq<MetricKind> {
    seq![MetricKind::Cpu, MetricKind::Memory, MetricKind::Disk, MetricKind::System]
}

/// Two gets of one kind less than the cache duration apart, where the first
/// found its slot stale and read successfully: the second returns the same
/// value and reads nothing.
pub proof fn lemma_get_within_duration_repeats<T: View>(
    slot0: Option<(u64, T)>,
    reads0: Seq<MetricKind>,
    t1: u64,
    duration: u64,
    kind: MetricKind,
    r1: Result<T, SystemMonitorError>,
    slot1: Option<(u64, T)>,
    reads1: Seq<MetricKind>,
    t2: u64,
    r2: Result<T, SystemMonitorError>,
    slot2: Option<(u64, T)>,
    reads2: Seq<MetricKind>,
)
    requires
        cached_get(slot0, reads0, t1, duration, kind, r1, slot1, reads1),
        cached_get(slot1, reads1, t2, duration, kind, r2, slot2, reads2),
        !fresh_at(slot0, t1, duration),
        r1 is Ok,
        t1 <= t2,
        t2 - t1 < duration,
    ensures
        r2 is Ok,
        r2->Ok_0@ == r1->Ok_0@,
        reads2 == reads1,
        slot2 == slot1,
{
}

/// Once more than the cache duration has passed since a slot was written,
/// the next get of that kind reads the source exactly once.
pub proof fn lemma_get_after_duration_reads_once<T: View>(
    slot: Option<(u64, T)>,
    reads: Seq<MetricKind>,
    now: u64,
    duration: u64,
    kind: MetricKind,
    r: Result<T, SystemMonitorError>,
    new_slot: Option<(u64, T)>,
    new_reads: Seq<MetricKind>,
)
    requires
        cached_get(slot, reads, now, duration, kind, r, new_slot, new_reads),
        slot is Some,
        now > slot->Some_0.0 + duration,
    ensures
        new_reads == reads.push(kind),
        new_reads.len() == reads.len() + 1,
{
}

/// After a forced refresh every slot is empty, so the next get of any kind
/// reads the source afresh, whatever the clock says.
pub proof fn lemma_get_after_refresh_reads<T: View>(
    reads: Seq<MetricKind>,
    now: u64,
    duration: u64,
    kind: MetricKind,
    r: Result<T, SystemMonitorError>,
    new_slot: Option<(u64, T)>,
    new_reads: Seq<MetricKind>,
)
    requires
        cached_get(None, reads, now, duration, kind, r, new_slot, new_reads),
    ensures
        new_reads == reads.push(kind),
{
}

} // verus!
