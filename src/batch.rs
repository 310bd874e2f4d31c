//! Paced collection of several snapshots in a row.
//!
//! The schedule is decided here; whoever drives it performs each step,
//! pausing for `PACING_INTERVAL_MS` at every `Pause` and abandoning the
//! batch at the first failed snapshot.

use vstd::prelude::*;
use vstd::arithmetic::div_mod::{lemma_fundamental_div_mod, lemma_fundamental_div_mod_converse};
use crate::error::SystemMonitorError;
use crate::info::SystemSnapshot;
use crate::collector::{CachedSystemCollector, SnapshotSource, snapshot_kinds};

verus! {

/// The pause between batches, in milliseconds.
pub const PACING_INTERVAL_MS: u64 = 100;

/// One step of a batch.
#[derive(Clone, Copy, Debug, PartialEq, Eq, Structural)]
pub enum BatchStep {
    /// Take one full snapshot.
    Collect,
    /// Pause for the pacing interval.
    Pause,
}

/// `count` snapshots, with a pause after every `batch_size`-th.
pub open spec fn schedule(count: nat, batch_size: nat) -> Seq<BatchStep>
    decreases count,
{
    if count == 0 {
        seq![]
    } else {
        let taken = schedule((count - 1) as nat, batch_size).push(BatchStep::Collect);
        if count % batch_size == 0 {
            taken.push(BatchStep::Pause)
        } else {
            taken
        }
    }
}

/// The number of steps of kind `step`.
pub open spec fn occurrences(s: Seq<BatchStep>, step: BatchStep) -> nat
    decreases s.len(),
{
    if s.len() == 0 {
        0
    } else {
        occurrences(s.drop_last(), step) + if s.last() == step {
            1nat
        } else {
            0nat
        }
    }
}

/// A schedule of `count` snapshots takes exactly `count` snapshots and
/// pauses `count / batch_size` times, and ends in a pause exactly when
/// `count` is a multiple of `batch_size`.
pub proof fn lemma_schedule_counts(count: nat, batch_size: nat)
    requires
        batch_size > 0,
    ensures
        occurrences(schedule(count, batch_size), BatchStep::Collect) == count,
        occurrences(schedule(count, batch_size), BatchStep::Pause) == count / batch_size,
        count > 0 ==> (schedule(count, batch_size).last() == BatchStep::Pause <==> count % batch_size
            == 0),
    decreases count,
{
    if count > 0 {
        let c = (count - 1) as nat;
        lemma_schedule_counts(c, batch_size);
        lemma_div_step(count, batch_size);
        let prev = schedule(c, batch_size);
        let taken = prev.push(BatchStep::Collect);
        assert(taken.drop_last() == prev);
        assert(occurrences(taken, BatchStep::Collect) == occurrences(prev, BatchStep::Collect) + 1);
        assert(occurrences(taken, BatchStep::Pause) == occurrences(prev, BatchStep::Pause));
        if count % batch_size == 0 {
            let paused = taken.push(BatchStep::Pause);
            assert(paused.drop_last() == taken);
            assert(occurrences(paused, BatchStep::Collect) == occurrences(taken, BatchStep::Collect));
            assert(occurrences(paused, BatchStep::Pause) == occurrences(taken, BatchStep::Pause) + 1);
        }
    }
}

proof fn lemma_div_step(count: nat, b: nat)
    requires
        b > 0,
        count > 0,
    ensures
        count % b == 0 ==> count / b == (count - 1) as nat / b + 1,
        count % b != 0 ==> count / b == (count - 1) as nat / b,
{
    let q = (count - 1) as nat / b;
    let r = (count - 1) as nat % b;
    lemma_fundamental_div_mod((count - 1) as int, b as int);
    assert(r < b);
    if r + 1 == b {
        assert(count == (q + 1) * b + 0) by (nonlinear_arith)
            requires
                count - 1 == b * q + r,
                r + 1 == b,
        ;
        lemma_fundamental_div_mod_converse(count as int, b as int, q + 1 as int, 0);
    } else {
        assert(count == q * b + (r + 1)) by (nonlinear_arith)
            requires
                count - 1 == b * q + r,
        ;
        lemma_fundamental_div_mod_converse(count as int, b as int, q as int, r + 1 as int);
    }
}

/// The steps of a batch of `count` snapshots.
pub fn batch_schedule(count: usize, batch_size: usize) -> (r: Vec<BatchStep>)
    requires
        batch_size > 0,
    ensures
        r@ == schedule(count as nat, batch_size as nat),
{
    let mut steps: Vec<BatchStep> = Vec::new();
    let mut taken: usize = 0;
    while taken < count
        invariant
            taken <= count,
            batch_size > 0,
            steps@ == schedule(taken as nat, batch_size as nat),
        decreases count - taken,
    {
        steps.push(BatchStep::Collect);
        taken = taken + 1;
        if taken % batch_size == 0 {
            steps.push(BatchStep::Pause);
        }
    }
    steps
}

/// Where a run of a batch stopped.
#[derive(Clone, Copy, Debug, PartialEq, Eq, Structural)]
pub enum BatchProgress {
    /// At a pause: wait `PACING_INTERVAL_MS`, then proceed.
    Paused,
    /// Every step is done.
    Finished,
}

/// A batch in progress: its steps, how many are done, and the snapshots taken.
pub struct BatchRun {
    steps: Vec<BatchStep>,
    position: usize,
    snapshots: Vec<SystemSnapshot>,
}

impl BatchRun {
    pub closed spec fn steps(&self) -> Seq<BatchStep> {
        self.steps@
    }

    pub closed spec fn position(&self) -> nat {
        self.position as nat
    }

    /// The snapshots taken, in order.
    pub closed spec fn snapshots(&self) -> Seq<SystemSnapshot> {
        self.snapshots@
    }

    /// How many snapshots have been taken.
    pub open spec fn taken(&self) -> nat {
        self.snapshots().len()
    }

    /// The steps done are at most all of them, and one snapshot was taken per
    /// `Collect` among them.
    pub open spec fn wf(&self) -> bool {
        &&& self.position() <= self.steps().len()
        &&& self.taken() == occurrences(self.steps().take(self.position() as int), BatchStep::Collect)
    }

    /// The snapshots taken, in order.
    pub fn into_snapshots(self) -> (r: Vec<SystemSnapshot>)
        ensures
            r@ == self.snapshots(),
    {
        self.snapshots
    }
}

/// Every step of `s` from `from` up to (not including) `to` is a `Collect`.
pub open spec fn collects_between(s: Seq<BatchStep>, from: int, to: int) -> bool {
    forall|k: int| from <= k < to ==> #[trigger] s[k] == BatchStep::Collect
}

/// A cached collector that takes snapshots in paced batches.
pub struct BatchSystemCollector<S> {
    collector: CachedSystemCollector<S>,
    batch_size: usize,
    calls: Ghost<nat>,
    collected: Ghost<Seq<SystemSnapshot>>,
}

impl<S: SnapshotSource> BatchSystemCollector<S> {
    /// The batch size.
    pub closed spec fn size(&self) -> nat {
        self.batch_size as nat
    }

    /// How many snapshots have been asked of the cached collector.
    pub closed spec fn calls(&self) -> nat {
        self.calls@
    }

    /// Every snapshot the cached collector handed back, in order.
    pub closed spec fn collected(&self) -> Seq<SystemSnapshot> {
        self.collected@
    }

    /// The cached collector the snapshots come from.
    pub closed spec fn collector(&self) -> CachedSystemCollector<S> {
        self.collector
    }

    /// A batch collector pausing after every `batch_size` snapshots.
    pub fn new(collector: CachedSystemCollector<S>, batch_size: usize) -> (r: Self)
        requires
            batch_size > 0,
        ensures
            r.size() == batch_size,
            r.collector() == collector,
            r.calls() == 0,
            r.collected() == Seq::<SystemSnapshot>::empty(),
    {
        BatchSystemCollector { collector, batch_size, calls: Ghost(0), collected: Ghost(Seq::empty()) }
    }

    /// The steps of a batch of `count` snapshots.
    pub fn schedule(&self, count: usize) -> (r: Vec<BatchStep>)
        requires
            self.size() > 0,
        ensures
            r@ == schedule(count as nat, self.size()),
    {
        batch_schedule(count, self.batch_size)
    }

    /// A run of a batch of `count` snapshots, at its start.
    pub fn start(&self, count: usize) -> (r: BatchRun)
        requires
            self.size() > 0,
        ensures
            r.wf(),
            r.steps() == schedule(count as nat, self.size()),
            r.position() == 0,
            r.taken() == 0,
    {
        let r = BatchRun { steps: batch_schedule(count, self.batch_size), position: 0, snapshots: Vec::new() };
        assert(r.steps@.take(0) =~= Seq::<BatchStep>::empty());
        r
    }

    /// Takes the run's steps from where it stands: a snapshot for each
    /// `Collect`, until a `Pause` (which it passes) or the end. The first
    /// failed snapshot ends the run with that error; it comes from a failed
    /// mandatory read.
    pub fn proceed(&mut self, run: &mut BatchRun, now: u64, timestamp_ms: i64) -> (r: Result<
        BatchProgress,
        SystemMonitorError,
    >)
        requires
            old(run).wf(),
        ensures
            final(run).wf(),
            final(run).steps() == old(run).steps(),
            old(run).position() <= final(run).position(),
            final(self).size() == old(self).size(),
            final(self).collected().len() == old(self).collected().len() + final(run).taken()
                - old(run).taken(),
            final(self).collected().take(old(self).collected().len() as int) == old(self).collected(),
            final(run).snapshots() == old(run).snapshots() + final(self).collected().skip(
                old(self).collected().len() as int,
            ),
            final(self).calls() == old(self).calls() + final(run).taken() - old(run).taken() + if r is Err {
                1nat
            } else {
                0nat
            },
            match r {
                Ok(BatchProgress::Finished) => {
                    &&& final(run).position() == final(run).steps().len()
                    &&& collects_between(final(run).steps(), old(run).position() as int, final(run).position() as int)
                },
                Ok(BatchProgress::Paused) => {
                    &&& final(run).position() > old(run).position()
                    &&& final(run).steps()[final(run).position() - 1] == BatchStep::Pause
                    &&& collects_between(final(run).steps(), old(run).position() as int, final(run).position() - 1)
                },
                Err(_) => {
                    let c = final(self).collector();
                    &&& c.reads().len() > old(self).collector().reads().len()
                    &&& snapshot_kinds().contains(c.reads().last())
                    &&& !c.fresh_kind(c.reads().last(), now)
                },
            },
    {
        let ghost start = run.position as int;
        let ghost reads0 = self.collector.reads().len();
        while run.position < run.steps.len()
            invariant
                run.wf(),
                run.steps() == old(run).steps(),
                start == old(run).position(),
                start <= run.position(),
                collects_between(run.steps(), start, run.position() as int),
                self.size() == old(self).size(),
                reads0 == old(self).collector().reads().len(),
                reads0 <= self.collector().reads().len(),
                self.collected().len() == old(self).collected().len() + run.taken() - old(run).taken(),
                self.collected().take(old(self).collected().len() as int) == old(self).collected(),
                run.snapshots() == old(run).snapshots() + self.collected().skip(
                    old(self).collected().len() as int,
                ),
                self.calls() == old(self).calls() + run.taken() - old(run).taken(),
            decreases run.steps().len() - run.position(),
        {
            let step = run.steps[run.position];
            let ghost p = run.position as int;
            assert(run.steps@.take(p + 1).drop_last() =~= run.steps@.take(p));
            match step {
                BatchStep::Pause => {
                    run.position = run.position + 1;
                    return Ok(BatchProgress::Paused);
                },
                BatchStep::Collect => {
                    let ghost before = self.collector();
                    let ghost before_collected = self.collected@;
                    match self.collect_one(now, timestamp_ms) {
                        Ok(snapshot) => {
                            let ghost before_run = run.snapshots@;
                            run.snapshots.push(snapshot);
                            run.position = run.position + 1;
                            proof {
                                let n0 = old(self).collected().len() as int;
                                assert(self.collected@ == before_collected.push(snapshot));
                                assert(self.collected@.take(n0) =~= before_collected.take(n0));
                                assert(self.collected@.skip(n0) =~= before_collected.skip(n0).push(snapshot));
                            }
                        },
                        Err(e) => {
                            proof {
                                let c = self.collector();
                                let i = choose|i: int| c.failed_at(&before, now, snapshot_kinds(), i);
                                assert(snapshot_kinds()[i] == c.reads().last());
                            }
                            return Err(e);
                        },
                    }
                },
            }
        }
        Ok(BatchProgress::Finished)
    }

    /// The cached collector behind the batch.
    pub fn cached_collector(&self) -> (r: &CachedSystemCollector<S>)
        ensures
            *r == self.collector(),
    {
        &self.collector
    }

    /// Performs a `Collect` step: one full snapshot through the cache,
    /// stamped `timestamp_ms`.
    pub fn collect_one(&mut self, now: u64, timestamp_ms: i64) -> (r: Result<SystemSnapshot, SystemMonitorError>)
        ensures
            final(self).size() == old(self).size(),
            final(self).collector().snapshot_outcome(&old(self).collector(), now, timestamp_ms, r),
            final(self).calls() == old(self).calls() + 1,
            final(self).collected() == match r {
                Ok(s) => old(self).collected().push(s),
                Err(_) => old(self).collected(),
            },
    {
        let r = self.collector.collect_system_snapshot(now, timestamp_ms);
        self.calls = Ghost(self.calls@ + 1);
        self.collected = Ghost(
            if r is Ok {
                self.collected@.push(r->Ok_0)
            } else {
                self.collected@
            },
        );
        r
    }
}

/// A run of a batch of `count` that has finished holds exactly `count` snapshots.
pub proof fn lemma_finished_run_complete(run: BatchRun, count: nat, batch_size: nat)
    requires
        batch_size > 0,
        run.wf(),
        run.steps() == schedule(count, batch_size),
        run.position() == run.steps().len(),
    ensures
        run.taken() == count,
{
    assert(run.steps().take(run.position() as int) =~= run.steps());
    lemma_schedule_counts(count, batch_size);
}

} // verus!
