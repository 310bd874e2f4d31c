//! Rolling metric history with statistics, anomaly detection and trend
//! prediction.
//!
//! Usage values are fixed-point: hundredths of a percent, so `FULL_SCALE`
//! (10000) is 100 %. Timestamps are milliseconds on a monotonic clock that
//! the caller reads.

use vstd::prelude::*;
use vstd::string::*;
use crate::error::SystemMonitorError;
use std::collections::VecDeque;
use vstd::arithmetic::div_mod::{lemma_fundamental_div_mod, lemma_fundamental_div_mod_converse};
use crate::history::{chronological, cutoff_for, drop_stale, lemma_expired_bounded, bounded_history, within_age, appended, stamp_for, lemma_appended_bounded, evict};
use crate::stats::{StatsSummary, summary_of, summarize, lemma_summary_constant};
use crate::trend::{starts_earliest, rate, linear_rate, project, clamp_to, MS_PER_HOUR, slope};

verus! {

/// Value units per percent.
pub const PERCENT_SCALE: u32 = 100;

/// The value of 100 %.
pub const FULL_SCALE: u32 = 10_000;

/// Statistics of the CPU usage history.
pub type CpuStats = StatsSummary;

/// Statistics of the memory usage history.
pub type MemoryStats = StatsSummary;

/// How far an anomalous sample stands above its threshold.
#[derive(Clone, Copy, Debug, PartialEq, Eq, Structural)]
pub enum AnomalySeverity {
    Low,
    Medium,
    High,
    Critical,
}

/// A CPU sample above the anomaly threshold.
#[derive(Clone, Copy, Debug, PartialEq, Eq, Structural)]
pub struct CpuAnomaly {
    pub timestamp: u64,
    pub usage: u32,
    pub threshold: u64,
    pub severity: AnomalySeverity,
}

/// Current values, predicted values (clamped to `[0, FULL_SCALE]`) and
/// slopes (value units per hour) of CPU and memory usage, and a confidence
/// in `[0, FULL_SCALE]`.
#[derive(Clone, Copy, Debug, PartialEq, Eq, Structural)]
pub struct LoadTrend {
    pub cpu_current: u32,
    pub cpu_predicted: u32,
    pub cpu_trend: i128,
    pub memory_current: u32,
    pub memory_predicted: u32,
    pub memory_trend: i128,
    pub confidence: u32,
}

/// The samples of a history, oldest first.
pub open spec fn values_of(h: Seq<(u64, u32)>) -> Seq<u32> {
    h.map_values(|p: (u64, u32)| p.1)
}

/// The anomaly threshold: `average + std_deviation * multiplier / 100`,
/// rounded down (`multiplier` in hundredths).
pub open spec fn threshold_of(s: StatsSummary, multiplier: u32) -> int {
    s.average + s.std_deviation * multiplier / 100
}

/// `High` when the sample exceeds one and a half times the threshold.
pub open spec fn severity_of(usage: int, threshold: int) -> AnomalySeverity {
    if 2 * usage > 3 * threshold {
        AnomalySeverity::High
    } else {
        AnomalySeverity::Medium
    }
}

/// The points of `h` above `threshold`, as anomalies, oldest first.
pub open spec fn anomalies_in(h: Seq<(u64, u32)>, threshold: int) -> Seq<CpuAnomaly>
    decreases h.len(),
{
    if h.len() == 0 {
        seq![]
    } else {
        let p = h.last();
        let rest = anomalies_in(h.drop_last(), threshold);
        if p.1 > threshold {
            rest.push(
                CpuAnomaly {
                    timestamp: p.0,
                    usage: p.1,
                    threshold: threshold as u64,
                    severity: severity_of(p.1 as int, threshold),
                },
            )
        } else {
            rest
        }
    }
}

/// Stability of a series: `FULL_SCALE` less its standard deviation, at least zero.
pub open spec fn stability(s: StatsSummary) -> int {
    FULL_SCALE - if s.std_deviation > FULL_SCALE { FULL_SCALE } else { s.std_deviation }
}

/// The mean of CPU stability, memory stability and sample adequacy
/// (`min(samples, 100)` percent), rounded down.
pub open spec fn confidence_of(cpu: StatsSummary, memory: StatsSummary, samples: nat) -> int {
    let adequacy = (if samples > 100 { 100 } else { samples }) * PERCENT_SCALE;
    (stability(cpu) + stability(memory) + adequacy) / 3
}

/// A tracked metric: CPU, memory, or the disk at an index of the disk lists.
#[derive(Clone, Copy, Debug, PartialEq, Eq, Structural)]
pub enum MetricId {
    Cpu,
    Memory,
    Disk(usize),
}

/// Every point of the disk history has a disk at `index` (and there is a point).
pub open spec fn disk_tracked(h: Seq<(u64, Vec<u32>)>, index: usize) -> bool {
    &&& h.len() > 0
    &&& forall|k: int| 0 <= k < h.len() ==> index < (#[trigger] h[k]).1@.len()
}

/// The usage of the disk at `index`, oldest first.
pub open spec fn disk_values(h: Seq<(u64, Vec<u32>)>, index: usize) -> Seq<u32> {
    h.map_values(|p: (u64, Vec<u32>)| p.1@[index as int])
}

/// Rolling histories of CPU, memory and per-disk usage.
pub struct MetricsCalculator {
    cpu_history: VecDeque<(u64, u32)>,
    memory_history: VecDeque<(u64, u32)>,
    disk_history: VecDeque<(u64, Vec<u32>)>,
    max_history_size: usize,
    history_duration: u64,
}

impl MetricsCalculator {
    /// CPU points, oldest first.
    pub closed spec fn cpu_points(&self) -> Seq<(u64, u32)> {
        self.cpu_history@
    }

    /// Memory points, oldest first.
    pub closed spec fn memory_points(&self) -> Seq<(u64, u32)> {
        self.memory_history@
    }

    /// Disk points, oldest first.
    pub closed spec fn disk_points(&self) -> Seq<(u64, Vec<u32>)> {
        self.disk_history@
    }

    /// The count bound of each history.
    pub closed spec fn max_size(&self) -> nat {
        self.max_history_size as nat
    }

    /// The age bound of each history, in milliseconds.
    pub closed spec fn duration(&self) -> u64 {
        self.history_duration
    }

    /// Every history is chronological and within both bounds, and the count
    /// bound fits a `usize`.
    pub open spec fn wf(&self) -> bool {
        &&& self.max_size() <= usize::MAX
        &&& bounded_history(self.cpu_points(), self.max_size(), self.duration() as nat)
        &&& bounded_history(self.memory_points(), self.max_size(), self.duration() as nat)
        &&& bounded_history(self.disk_points(), self.max_size(), self.duration() as nat)
    }

    /// An empty calculator that keeps at most `max_history_size` points per
    /// metric, none older than `history_duration_ms`.
    pub fn new(max_history_size: usize, history_duration_ms: u64) -> (r: Self)
        ensures
            r.wf(),
            r.cpu_points().len() == 0,
            r.memory_points().len() == 0,
            r.disk_points().len() == 0,
            r.max_size() == max_history_size,
            r.duration() == history_duration_ms,
    {
        MetricsCalculator {
            cpu_history: VecDeque::with_capacity(max_history_size),
            memory_history: VecDeque::with_capacity(max_history_size),
            disk_history: VecDeque::with_capacity(max_history_size),
            max_history_size,
            history_duration: history_duration_ms,
        }
    }

    /// Appends a point to `h` at `now` (or at its newest timestamp, if the
    /// clock reads earlier), then evicts by age and by count.
    fn append_point<T>(h: &mut VecDeque<(u64, T)>, value: T, now: u64, max: usize, duration: u64)
        requires
            bounded_history(old(h)@, max as nat, duration as nat),
        ensures
            final(h)@ == appended(old(h)@, now, value, max as nat, duration),
            bounded_history(final(h)@, max as nat, duration as nat),
            within_age(final(h)@, stamp_for(old(h)@, now) as int, duration as int),
    {
        proof {
            lemma_appended_bounded(old(h)@, now, value, max as nat, duration);
        }
        let len = h.len();
        let stamp = if len > 0 && now < h[len - 1].0 {
            h[len - 1].0
        } else {
            now
        };
        let cutoff = if stamp >= duration {
            stamp - duration
        } else {
            0
        };
        h.push_back((stamp, value));
        evict(h, cutoff, max);
    }

    /// Records a CPU usage sample taken at `now`.
    pub fn add_cpu_data(&mut self, usage: u32, now: u64)
        requires
            old(self).wf(),
        ensures
            final(self).wf(),
            final(self).cpu_points() == appended(
                old(self).cpu_points(),
                now,
                usage,
                old(self).max_size(),
                old(self).duration(),
            ),
            within_age(
                final(self).cpu_points(),
                stamp_for(old(self).cpu_points(), now) as int,
                old(self).duration() as int,
            ),
            final(self).memory_points() == old(self).memory_points(),
            final(self).disk_points() == old(self).disk_points(),
            final(self).max_size() == old(self).max_size(),
            final(self).duration() == old(self).duration(),
    {
        Self::append_point(
            &mut self.cpu_history,
            usage,
            now,
            self.max_history_size,
            self.history_duration,
        );
    }

    /// Records a memory usage sample taken at `now`.
    pub fn add_memory_data(&mut self, usage_percent: u32, now: u64)
        requires
            old(self).wf(),
        ensures
            final(self).wf(),
            final(self).memory_points() == appended(
                old(self).memory_points(),
                now,
                usage_percent,
                old(self).max_size(),
                old(self).duration(),
            ),
            within_age(
                final(self).memory_points(),
                stamp_for(old(self).memory_points(), now) as int,
                old(self).duration() as int,
            ),
            final(self).cpu_points() == old(self).cpu_points(),
            final(self).disk_points() == old(self).disk_points(),
            final(self).max_size() == old(self).max_size(),
            final(self).duration() == old(self).duration(),
    {
        Self::append_point(
            &mut self.memory_history,
            usage_percent,
            now,
            self.max_history_size,
            self.history_duration,
        );
    }

    /// Records the usage of every disk, sampled at `now`.
    pub fn add_disk_data(&mut self, disk_usages: Vec<u32>, now: u64)
        requires
            old(self).wf(),
        ensures
            final(self).wf(),
            final(self).disk_points() == appended(
                old(self).disk_points(),
                now,
                disk_usages,
                old(self).max_size(),
                old(self).duration(),
            ),
            within_age(
                final(self).disk_points(),
                stamp_for(old(self).disk_points(), now) as int,
                old(self).duration() as int,
            ),
            final(self).cpu_points() == old(self).cpu_points(),
            final(self).memory_points() == old(self).memory_points(),
            final(self).max_size() == old(self).max_size(),
            final(self).duration() == old(self).duration(),
    {
        Self::append_point(
            &mut self.disk_history,
            disk_usages,
            now,
            self.max_history_size,
            self.history_duration,
        );
    }

    /// The samples of a history, oldest first.
    fn samples(h: &VecDeque<(u64, u32)>) -> (r: Vec<u32>)
        ensures
            r@ == values_of(h@),
    {
        let mut out: Vec<u32> = Vec::with_capacity(h.len());
        let mut i: usize = 0;
        while i < h.len()
            invariant
                i <= h@.len(),
                out@ == values_of(h@.take(i as int)),
            decreases h@.len() - i,
        {
            out.push(h[i].1);
            i = i + 1;
            assert(out@ =~= values_of(h@.take(i as int)));
        }
        assert(h@.take(h@.len() as int) =~= h@);
        out
    }

    /// The CPU samples, oldest first.
    fn cpu_values(&self) -> (r: Vec<u32>)
        ensures
            r@ == values_of(self.cpu_points()),
    {
        Self::samples(&self.cpu_history)
    }

    /// The memory samples, oldest first.
    fn memory_values(&self) -> (r: Vec<u32>)
        ensures
            r@ == values_of(self.memory_points()),
    {
        Self::samples(&self.memory_history)
    }

    /// Statistics of the CPU history.
    fn cpu_summary(&self) -> (r: CpuStats)
        ensures
            r == summary_of(values_of(self.cpu_points())),
    {
        let values = self.cpu_values();
        summarize(&values)
    }

    /// Statistics of the memory history.
    fn memory_summary(&self) -> (r: MemoryStats)
        ensures
            r == summary_of(values_of(self.memory_points())),
    {
        let values = self.memory_values();
        summarize(&values)
    }

    /// The CPU samples above `average + std_deviation * threshold_multiplier / 100`
    /// (`threshold_multiplier` in hundredths), oldest first.
    fn cpu_anomalies(&self, threshold_multiplier: u32) -> (r: Vec<CpuAnomaly>)
        ensures
            r@ == anomalies_in(
                self.cpu_points(),
                threshold_of(self.calculate_cpu_stats_spec(), threshold_multiplier),
            ),
    {
        let stats = self.cpu_summary();
        let deviation = stats.std_deviation as u64;
        let multiplier = threshold_multiplier as u64;
        assert(deviation * multiplier <= 0xffff_fffe_0000_0001) by (nonlinear_arith)
            requires
                deviation <= 0xffff_ffff,
                multiplier <= 0xffff_ffff,
        ;
        let spread = deviation * multiplier;
        let threshold: u64 = stats.average as u64 + spread / 100;
        let ghost h = self.cpu_points();
        let mut anomalies: Vec<CpuAnomaly> = Vec::new();
        let mut i: usize = 0;
        while i < self.cpu_history.len()
            invariant
                h == self.cpu_points(),
                h == self.cpu_history@,
                i <= h.len(),
                threshold == threshold_of(self.calculate_cpu_stats_spec(), threshold_multiplier),
                anomalies@ == anomalies_in(h.take(i as int), threshold as int),
            decreases h.len() - i,
        {
            let (timestamp, usage) = self.cpu_history[i];
            assert(h.take(i + 1).drop_last() =~= h.take(i as int));
            if usage as u64 > threshold {
                let severity = if 2 * (usage as u128) > 3 * (threshold as u128) {
                    AnomalySeverity::High
                } else {
                    AnomalySeverity::Medium
                };
                anomalies.push(CpuAnomaly { timestamp, usage, threshold, severity });
            }
            i = i + 1;
        }
        assert(h.take(h.len() as int) =~= h);
        anomalies
    }

    /// Statistics of one metric; a disk index that the disk history does not
    /// hold at every point is an `InvalidMetric` error.
    fn stats_of(&self, metric: MetricId) -> (r: Result<StatsSummary, SystemMonitorError>)
        ensures
            self.stats_spec(metric, r),
    {
        match metric {
            MetricId::Cpu => Ok(self.cpu_summary()),
            MetricId::Memory => Ok(self.memory_summary()),
            MetricId::Disk(index) => {
                let h = &self.disk_history;
                if h.len() == 0 {
                    return Err(SystemMonitorError::InvalidMetric(String::from_str("没有磁盘历史数据")));
                }
                let mut values: Vec<u32> = Vec::with_capacity(h.len());
                let mut k: usize = 0;
                while k < h.len()
                    invariant
                        metric == MetricId::Disk(index),
                        h@ == self.disk_points(),
                        h@.len() > 0,
                        k <= h@.len(),
                        forall|j: int| 0 <= j < k ==> index < (#[trigger] h@[j]).1@.len(),
                        values@ == disk_values(h@.take(k as int), index),
                    decreases h@.len() - k,
                {
                    let usages = &h[k].1;
                    if index >= usages.len() {
                        assert(!(index < h@[k as int].1@.len()));
                        return Err(SystemMonitorError::InvalidMetric(String::from_str("磁盘序号超出范围")));
                    }
                    values.push(usages[index]);
                    k = k + 1;
                    assert(values@ =~= disk_values(h@.take(k as int), index));
                }
                assert(h@.take(h@.len() as int) =~= h@);
                Ok(summarize(&values))
            },
        }
    }

    /// `self` is `old` with every point older than `history_duration` at
    /// `now` dropped; no point left is older than that.
    pub open spec fn expired_from(&self, old: &Self, now: u64) -> bool {
        let c = cutoff_for(now, old.duration());
        &&& self.wf()
        &&& self.max_size() == old.max_size()
        &&& self.duration() == old.duration()
        &&& self.cpu_points() == drop_stale(old.cpu_points(), c)
        &&& self.memory_points() == drop_stale(old.memory_points(), c)
        &&& self.disk_points() == drop_stale(old.disk_points(), c)
        &&& within_age(self.cpu_points(), now as int, self.duration() as int)
        &&& within_age(self.memory_points(), now as int, self.duration() as int)
        &&& within_age(self.disk_points(), now as int, self.duration() as int)
    }

    /// Drops, from every history, the points more than `history_duration`
    /// older than `now`.
    pub fn expire(&mut self, now: u64)
        requires
            old(self).wf(),
        ensures
            final(self).expired_from(old(self), now),
    {
        proof {
            lemma_expired_bounded(self.cpu_history@, now, self.max_history_size as nat, self.history_duration);
            lemma_expired_bounded(self.memory_history@, now, self.max_history_size as nat, self.history_duration);
            lemma_expired_bounded(self.disk_history@, now, self.max_history_size as nat, self.history_duration);
        }
        let cutoff = if now >= self.history_duration {
            now - self.history_duration
        } else {
            0
        };
        evict(&mut self.cpu_history, cutoff, self.max_history_size);
        evict(&mut self.memory_history, cutoff, self.max_history_size);
        evict(&mut self.disk_history, cutoff, self.max_history_size);
    }

    /// The CPU samples still within the age bound at `now`, oldest first.
    pub fn get_cpu_history(&mut self, now: u64) -> (r: Vec<u32>)
        requires
            old(self).wf(),
        ensures
            final(self).expired_from(old(self), now),
            r@ == values_of(final(self).cpu_points()),
    {
        self.expire(now);
        self.cpu_values()
    }

    /// The memory samples still within the age bound at `now`, oldest first.
    pub fn get_memory_history(&mut self, now: u64) -> (r: Vec<u32>)
        requires
            old(self).wf(),
        ensures
            final(self).expired_from(old(self), now),
            r@ == values_of(final(self).memory_points()),
    {
        self.expire(now);
        self.memory_values()
    }

    /// Statistics of the CPU samples within the age bound at `now`.
    pub fn calculate_cpu_stats(&mut self, now: u64) -> (r: CpuStats)
        requires
            old(self).wf(),
        ensures
            final(self).expired_from(old(self), now),
            r == final(self).calculate_cpu_stats_spec(),
    {
        self.expire(now);
        self.cpu_summary()
    }

    /// Statistics of the memory samples within the age bound at `now`.
    pub fn calculate_memory_stats(&mut self, now: u64) -> (r: MemoryStats)
        requires
            old(self).wf(),
        ensures
            final(self).expired_from(old(self), now),
            r == final(self).calculate_memory_stats_spec(),
    {
        self.expire(now);
        self.memory_summary()
    }

    /// Statistics of one metric within the age bound at `now`; a disk index
    /// that the disk history does not hold at every point is an
    /// `InvalidMetric` error.
    pub fn calculate_stats(&mut self, metric: MetricId, now: u64) -> (r: Result<StatsSummary, SystemMonitorError>)
        requires
            old(self).wf(),
        ensures
            final(self).expired_from(old(self), now),
            final(self).stats_spec(metric, r),
    {
        self.expire(now);
        self.stats_of(metric)
    }

    /// The CPU samples within the age bound at `now` that lie above
    /// `average + std_deviation * threshold_multiplier / 100` of those samples
    /// (`threshold_multiplier` in hundredths), oldest first.
    pub fn detect_cpu_anomalies(&mut self, threshold_multiplier: u32, now: u64) -> (r: Vec<CpuAnomaly>)
        requires
            old(self).wf(),
        ensures
            final(self).expired_from(old(self), now),
            r@ == anomalies_in(
                final(self).cpu_points(),
                threshold_of(final(self).calculate_cpu_stats_spec(), threshold_multiplier),
            ),
    {
        self.expire(now);
        self.cpu_anomalies(threshold_multiplier)
    }

    /// The load trend over the samples within the age bound at `now`,
    /// predicting `prediction_window_secs` ahead.
    pub fn predict_load_trend(&mut self, prediction_window_secs: u64, now: u64) -> (r: LoadTrend)
        requires
            old(self).wf(),
        ensures
            final(self).expired_from(old(self), now),
            r == final(self).predicted_trend(prediction_window_secs),
    {
        self.expire(now);
        self.load_trend(prediction_window_secs)
    }

    /// What `calculate_stats` returns for `metric` over the current points.
    pub open spec fn stats_spec(&self, metric: MetricId, r: Result<StatsSummary, SystemMonitorError>) -> bool {
        match metric {
            MetricId::Cpu => r == Ok::<StatsSummary, SystemMonitorError>(self.calculate_cpu_stats_spec()),
            MetricId::Memory => r == Ok::<StatsSummary, SystemMonitorError>(
                self.calculate_memory_stats_spec(),
            ),
            MetricId::Disk(i) => if disk_tracked(self.disk_points(), i) {
                r == Ok::<StatsSummary, SystemMonitorError>(summary_of(disk_values(self.disk_points(), i)))
            } else {
                r is Err && r->Err_0 is InvalidMetric
            },
        }
    }

    /// The statistics `calculate_cpu_stats` returns.
    pub open spec fn calculate_cpu_stats_spec(&self) -> StatsSummary {
        summary_of(values_of(self.cpu_points()))
    }

    /// The statistics `calculate_memory_stats` returns.
    pub open spec fn calculate_memory_stats_spec(&self) -> StatsSummary {
        summary_of(values_of(self.memory_points()))
    }

    /// Mean of CPU stability, memory stability and sample adequacy, in
    /// `[0, FULL_SCALE]`.
    fn calculate_prediction_confidence(&self) -> (r: u32)
        ensures
            r == confidence_of(
                self.calculate_cpu_stats_spec(),
                self.calculate_memory_stats_spec(),
                self.cpu_points().len(),
            ),
    {
        let cpu = self.cpu_summary();
        let memory = self.memory_summary();
        let cpu_stability = FULL_SCALE - if cpu.std_deviation > FULL_SCALE {
            FULL_SCALE
        } else {
            cpu.std_deviation
        };
        let memory_stability = FULL_SCALE - if memory.std_deviation > FULL_SCALE {
            FULL_SCALE
        } else {
            memory.std_deviation
        };
        let samples = self.cpu_history.len();
        let adequacy: u32 = if samples > 100 {
            100
        } else {
            samples as u32
        } * PERCENT_SCALE;
        (cpu_stability + memory_stability + adequacy) / 3
    }

    /// Current usage, usage predicted `prediction_window_secs` ahead by the
    /// least-squares slope of each history (clamped to `[0, FULL_SCALE]`),
    /// the slopes per hour, and the prediction's confidence.
    fn load_trend(&self, prediction_window_secs: u64) -> (r: LoadTrend)
        requires
            self.wf(),
        ensures
            r == self.predicted_trend(prediction_window_secs),
    {
        let cpu = self.cpu_summary();
        let memory = self.memory_summary();
        proof {
            lemma_chronological_starts_earliest(self.cpu_points());
            lemma_chronological_starts_earliest(self.memory_points());
        }
        let window_ms = prediction_window_secs as u128 * 1000;
        let cpu_change = linear_rate(&self.cpu_history, window_ms);
        let memory_change = linear_rate(&self.memory_history, window_ms);
        LoadTrend {
            cpu_current: cpu.current,
            cpu_predicted: project(cpu.current, cpu_change, FULL_SCALE),
            cpu_trend: linear_rate(&self.cpu_history, MS_PER_HOUR),
            memory_current: memory.current,
            memory_predicted: project(memory.current, memory_change, FULL_SCALE),
            memory_trend: linear_rate(&self.memory_history, MS_PER_HOUR),
            confidence: self.calculate_prediction_confidence(),
        }
    }

    /// The trend `predict_load_trend` reports.
    pub open spec fn predicted_trend(&self, window_secs: u64) -> LoadTrend {
        let cpu = self.calculate_cpu_stats_spec();
        let memory = self.calculate_memory_stats_spec();
        let window_ms = window_secs * 1000;
        LoadTrend {
            cpu_current: cpu.current,
            cpu_predicted: clamp_to(
                cpu.current + rate(self.cpu_points(), window_ms),
                FULL_SCALE as int,
            ) as u32,
            cpu_trend: rate(self.cpu_points(), MS_PER_HOUR as int) as i128,
            memory_current: memory.current,
            memory_predicted: clamp_to(
                memory.current + rate(self.memory_points(), window_ms),
                FULL_SCALE as int,
            ) as u32,
            memory_trend: rate(self.memory_points(), MS_PER_HOUR as int) as i128,
            confidence: confidence_of(cpu, memory, self.cpu_points().len()) as u32,
        }
    }
}

proof fn lemma_chronological_starts_earliest(h: Seq<(u64, u32)>)
    requires
        chronological(h),
    ensures
        starts_earliest(h),
{
    assert forall|i: int| 0 <= i < h.len() implies h[0].0 <= #[trigger] h[i].0 by {
        assert(h[0].0 <= h[i].0);
    }
}

/// With fewer than two CPU points there is no slope: the CPU trend is zero
/// and the prediction is the current value (clamped to the valid range).
pub proof fn lemma_short_history_flat(c: &MetricsCalculator, window_secs: u64)
    requires
        c.cpu_points().len() < 2,
    ensures
        c.predicted_trend(window_secs).cpu_trend == 0,
        c.predicted_trend(window_secs).cpu_predicted == clamp_to(
            c.predicted_trend(window_secs).cpu_current as int,
            FULL_SCALE as int,
        ),
        c.predicted_trend(window_secs).cpu_current <= FULL_SCALE ==> c.predicted_trend(
            window_secs,
        ).cpu_predicted == c.predicted_trend(window_secs).cpu_current,
{
    assert(slope(c.cpu_points()) is None);
}

proof fn lemma_none_above(h: Seq<(u64, u32)>, v: u32)
    requires
        forall|i: int| 0 <= i < h.len() ==> #[trigger] h[i].1 == v,
    ensures
        anomalies_in(h, v as int).len() == 0,
    decreases h.len(),
{
    if h.len() > 0 {
        let w = h.drop_last();
        assert forall|i: int| 0 <= i < w.len() implies #[trigger] w[i].1 == v by {
            assert(w[i] == h[i]);
        }
        lemma_none_above(w, v);
        assert(h.last() == h[h.len() - 1]);
    }
}

/// A series holding one value throughout has no anomalies, whatever the
/// multiplier: its deviation is zero, so the threshold is the value itself.
pub proof fn lemma_constant_series_no_anomalies(h: Seq<(u64, u32)>, v: u32, multiplier: u32)
    requires
        forall|i: int| 0 <= i < h.len() ==> #[trigger] h[i].1 == v,
    ensures
        anomalies_in(h, threshold_of(summary_of(values_of(h)), multiplier)).len() == 0,
{
    let vals = values_of(h);
    if h.len() > 0 {
        assert forall|i: int| 0 <= i < vals.len() implies #[trigger] vals[i] == v by {
            assert(vals[i] == h[i].1);
        }
        lemma_summary_constant(vals, v);
        assert(threshold_of(summary_of(vals), multiplier) == v);
        lemma_none_above(h, v);
    }
}

/// Direction of a change against a baseline.
#[derive(Clone, Copy, Debug, PartialEq, Eq, Structural)]
pub enum TrendDirection {
    Increasing,
    Decreasing,
    Stable,
}

/// `current` is more than 10 % above `baseline` (any rise from a zero baseline).
pub open spec fn rises(current: int, baseline: int) -> bool {
    if baseline == 0 {
        current > 0
    } else {
        (current - baseline) * 10 > baseline
    }
}

/// `current` is more than 10 % below a non-zero `baseline`.
pub open spec fn falls(current: int, baseline: int) -> bool {
    baseline != 0 && (current - baseline) * 10 < -baseline
}

/// The change from `baseline` to `current` in hundredths of a percent of the
/// baseline, rounded down; none for a zero baseline.
pub open spec fn change_of(current: int, baseline: int) -> Option<i64> {
    if baseline == 0 {
        None
    } else {
        Some(((current - baseline) * 10000 / baseline) as i64)
    }
}

/// Usage compared with a baseline.
#[derive(Clone, Copy, Debug, PartialEq, Eq, Structural)]
pub struct PerformanceChange {
    /// CPU change in hundredths of a percent of the baseline.
    pub cpu_change_percent: Option<i64>,
    /// Memory change in hundredths of a percent of the baseline.
    pub memory_change_percent: Option<i64>,
    /// Milliseconds since the baseline was taken.
    pub time_elapsed_ms: u64,
    pub overall_trend: TrendDirection,
}

/// Usage recorded at one moment, to compare later readings with.
pub struct PerformanceBenchmark {
    baseline_cpu: u32,
    baseline_memory: u32,
    baseline_timestamp: u64,
}

/// The change from `baseline` to `current`, in hundredths of a percent.
fn relative_change(current: u32, baseline: u32) -> (r: Option<i64>)
    ensures
        r == change_of(current as int, baseline as int),
{
    if baseline == 0 {
        return None;
    }
    let b = baseline as u64;
    let rising = current >= baseline;
    let mag: u64 = if rising {
        (current - baseline) as u64 * 10000
    } else {
        (baseline - current) as u64 * 10000
    };
    let d = mag / b;
    let m = mag % b;
    let ghost scaled: int = (current - baseline) * 10000;
    proof {
        lemma_fundamental_div_mod(mag as int, b as int);
        if !rising {
            if m == 0 {
                assert(scaled == (-d) * b + 0) by (nonlinear_arith)
                    requires
                        mag == b * d + m,
                        m == 0,
                        scaled == -mag,
                ;
                lemma_fundamental_div_mod_converse(scaled, b as int, -d, 0);
            } else {
                assert(scaled == (-d - 1) * b + (b - m)) by (nonlinear_arith)
                    requires
                        mag == b * d + m,
                        scaled == -mag,
                ;
                lemma_fundamental_div_mod_converse(
                    scaled,
                    b as int,
                    -d - 1,
                    b - m,
                );
            }
        }
    }
    let q: i64 = if rising {
        d as i64
    } else if m == 0 {
        -(d as i64)
    } else {
        -(d as i64) - 1
    };
    Some(q)
}

impl PerformanceBenchmark {
    pub closed spec fn baseline(&self) -> (u32, u32, u64) {
        (self.baseline_cpu, self.baseline_memory, self.baseline_timestamp)
    }

    /// A baseline of CPU and memory usage taken at `now`.
    pub fn new(cpu_usage: u32, memory_usage: u32, now: u64) -> (r: Self)
        ensures
            r.baseline() == (cpu_usage, memory_usage, now),
    {
        PerformanceBenchmark {
            baseline_cpu: cpu_usage,
            baseline_memory: memory_usage,
            baseline_timestamp: now,
        }
    }

    /// The change of each reading against the baseline, and the overall
    /// direction: increasing when either rose by more than 10 %, else
    /// decreasing when either fell by more than 10 %, else stable.
    pub fn calculate_performance_change(&self, current_cpu: u32, current_memory: u32, now: u64) -> (r:
        PerformanceChange)
        ensures
            r.cpu_change_percent == change_of(current_cpu as int, self.baseline().0 as int),
            r.memory_change_percent == change_of(current_memory as int, self.baseline().1 as int),
            r.time_elapsed_ms == if now >= self.baseline().2 {
                now - self.baseline().2
            } else {
                0
            },
            r.overall_trend == if rises(current_cpu as int, self.baseline().0 as int) || rises(
                current_memory as int,
                self.baseline().1 as int,
            ) {
                TrendDirection::Increasing
            } else if falls(current_cpu as int, self.baseline().0 as int) || falls(
                current_memory as int,
                self.baseline().1 as int,
            ) {
                TrendDirection::Decreasing
            } else {
                TrendDirection::Stable
            },
    {
        let up = |current: u32, baseline: u32| -> (b: bool)
            ensures
                b == rises(current as int, baseline as int),
            {
                if baseline == 0 {
                    current > 0
                } else {
                    (current as i64 - baseline as i64) * 10 > baseline as i64
                }
            };
        let down = |current: u32, baseline: u32| -> (b: bool)
            ensures
                b == falls(current as int, baseline as int),
            { baseline != 0 && (current as i64 - baseline as i64) * 10 < -(baseline as i64) };
        let overall_trend = if up(current_cpu, self.baseline_cpu) || up(
            current_memory,
            self.baseline_memory,
        ) {
            TrendDirection::Increasing
        } else if down(current_cpu, self.baseline_cpu) || down(current_memory, self.baseline_memory) {
            TrendDirection::Decreasing
        } else {
            TrendDirection::Stable
        };
        PerformanceChange {
            cpu_change_percent: relative_change(current_cpu, self.baseline_cpu),
            memory_change_percent: relative_change(current_memory, self.baseline_memory),
            time_elapsed_ms: if now >= self.baseline_timestamp {
                now - self.baseline_timestamp
            } else {
                0
            },
            overall_trend,
        }
    }
}

} // verus!
