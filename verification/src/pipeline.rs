use vstd::prelude::*;
use crate::backend::{StorageBackend, StoreView};
use crate::cancel::{quiet_polls, CancelSignal};
use crate::clock::Clock;
use crate::coord::BlockCoordinate;
use crate::error::MigrationError;
use crate::job::Job;
use crate::progress::{Progress, ProgressReporter};
use crate::transform::{judge, BlockAction, BlockTransform, FailurePolicy, Verdict};
use crate::writer::{cadence_after, BatchConfig, TransactionalWriter};

verus! {

/// How a run ended.
#[derive(Clone, Copy, Debug, PartialEq, Eq, Structural)]
pub enum RunOutcome {
    /// Every block was gone through and the last batch is committed.
    Completed,
    /// The cancellation token was found raised before some block.
    Cancelled,
    /// A block stopped the run.
    Failed(MigrationError),
}

impl RunOutcome {
    /// Whether the run did all it was asked to.
    pub open spec fn spec_succeeded(self) -> bool {
        self is Completed
    }

    /// Whether the run did all it was asked to.
    #[verifier::when_used_as_spec(spec_succeeded)]
    pub fn succeeded(self) -> (b: bool)
        ensures
            b == self.spec_succeeded(),
    {
        match self {
            RunOutcome::Completed => true,
            _ => false,
        }
    }

    /// The status with which the process ends.
    pub open spec fn spec_exit_status(self) -> u8 {
        if self is Completed {
            0
        } else {
            1
        }
    }

    /// The status with which the process ends: 0 after a run that completed,
    /// 1 after any other, a cancelled one too.
    #[verifier::when_used_as_spec(spec_exit_status)]
    pub fn exit_status(self) -> (code: u8)
        ensures
            code == self.spec_exit_status(),
    {
        match self {
            RunOutcome::Completed => 0,
            _ => 1,
        }
    }
}

/// What a run did.
#[derive(Debug)]
pub struct RunReport {
    pub outcome: RunOutcome,
    /// The coordinates of the run, in the order in which it took them.
    pub keys: Vec<BlockCoordinate>,
    /// How many blocks were gone through: written or passed over.
    pub processed: usize,
    /// How many blocks were written.
    pub written: usize,
    /// The coordinates whose blocks were passed over, in the run's order.
    pub skipped: Vec<BlockCoordinate>,
    /// The counts of blocks gone through at which a batch was committed
    /// while the run went on. The commit that ends a completed run is not
    /// among them.
    pub commit_points: Vec<usize>,
}

impl RunReport {
    /// How many of the blocks gone through are durable: all of them after a
    /// run that completed, else those up to the last commit.
    pub open spec fn spec_committed(&self) -> usize {
        if self.outcome is Completed {
            self.processed
        } else if self.commit_points@.len() == 0 {
            0
        } else {
            self.commit_points@.last()
        }
    }

    /// How many of the blocks gone through are durable.
    #[verifier::when_used_as_spec(spec_committed)]
    pub fn committed(&self) -> (n: usize)
        ensures
            n == self.spec_committed(),
    {
        if self.outcome.succeeded() {
            self.processed
        } else if self.commit_points.len() == 0 {
            0
        } else {
            self.commit_points[self.commit_points.len() - 1]
        }
    }
}

/// The progress lines for the commit points `points` of a run over `total` blocks.
pub open spec fn progress_lines(points: Seq<usize>, total: usize) -> Seq<Progress> {
    points.map_values(|p: usize| Progress { done: p, total })
}

/// What a run leaves behind: `report` and the destination `after` are those
/// of a run of `job` that began with the destination at `before`, was
/// answered `polls` when it asked whether to stop, and read the clock as
/// `readings` tell.
///
/// The run asks once before each block and stops on the first answer that
/// it is to. It reads the clock once when it begins and once after each
/// block. However it ends, it leaves no transaction open: a run that
/// completes commits its last batch; a run that is stopped releases the
/// destination, which keeps what was committed and loses the open batch.
pub open spec fn run_result<T: BlockTransform>(
    job: Job<T>,
    config: BatchConfig,
    before: StoreView,
    after: StoreView,
    polls: Seq<bool>,
    readings: Seq<u64>,
    report: RunReport,
) -> bool {
    let n = report.processed as nat;
    let cadence = cadence_after(config, readings, n);
    &&& report.keys@ == job.keys
    &&& n <= job.keys.len()
    &&& job.clear_until(n)
    &&& match report.outcome {
        RunOutcome::Completed => n == job.keys.len(),
        RunOutcome::Cancelled => n < job.keys.len(),
        RunOutcome::Failed(e) => n < job.keys.len() && job.verdict_at(n) == Verdict::Abort(e),
    }
    &&& polls == match report.outcome {
        RunOutcome::Completed => quiet_polls(n),
        RunOutcome::Cancelled => quiet_polls(n).push(true),
        RunOutcome::Failed(_) => quiet_polls(n + 1),
    }
    &&& report.written == job.written(n)
    &&& report.skipped@ == job.skipped(n)
    &&& readings.len() == n + 1
    &&& report.commit_points@ == cadence.points
    &&& cadence.valid(config)
    &&& cadence.done == n
    &&& !after.in_transaction
    &&& after.current == after.durable
    &&& after.durable == if report.outcome is Completed {
        job.after(n)
    } else if cadence.points.len() == 0 {
        before.durable
    } else {
        job.after(cadence.points.last() as nat)
    }
}

/// The batching after `n` blocks depends on no reading later than the one
/// taken for the last of them.
pub proof fn lemma_cadence_prefix(config: BatchConfig, a: Seq<u64>, b: Seq<u64>, n: nat)
    requires
        n < a.len() <= b.len(),
        forall|k: int| 0 <= k <= n ==> a[k] == b[k],
    ensures
        cadence_after(config, a, n) == cadence_after(config, b, n),
    decreases n,
{
    if n > 0 {
        lemma_cadence_prefix(config, a, b, (n - 1) as nat);
    }
}

/// A sequence parts again where it was joined.
proof fn lemma_split<A>(a: Seq<A>, b: Seq<A>)
    ensures
        (a + b).take(a.len() as int) == a,
        (a + b).skip(a.len() as int) == b,
        a.len() <= (a + b).len(),
{
    assert((a + b).take(a.len() as int) =~= a);
    assert((a + b).skip(a.len() as int) =~= b);
}

/// Goes through `keys` in order: reads each block, from `source` or, where
/// there is none, from `dest` itself; decides by `transform` and `policy`
/// what becomes of it; writes through a batching writer into `dest`. Before
/// each block it asks `cancel` whether to stop, after each it reads `clock`.
pub fn run_pipeline<S, D, T, K, C, P>(
    keys: Vec<BlockCoordinate>,
    source: Option<&S>,
    dest: &mut D,
    transform: &T,
    policy: FailurePolicy,
    config: BatchConfig,
    cancel: &mut K,
    clock: &mut C,
    reporter: &mut P,
) -> (report: RunReport) where
    S: StorageBackend,
    D: StorageBackend,
    T: BlockTransform,
    K: CancelSignal,
    C: Clock,
    P: ProgressReporter,

    requires
        old(dest).wf(),
        source matches Some(s) ==> s.wf(),
    ensures
        final(dest).wf(),
        old(cancel).polls() == final(cancel).polls().take(old(cancel).polls().len() as int),
        old(clock).readings() == final(clock).readings().take(old(clock).readings().len() as int),
        run_result(
            Job {
                transform: *transform,
                policy,
                source: match source {
                    Some(s) => Some(s@.current),
                    None => None,
                },
                start: old(dest)@.current,
                keys: keys@,
            },
            config,
            old(dest)@,
            final(dest)@,
            final(cancel).polls().skip(old(cancel).polls().len() as int),
            final(clock).readings().skip(old(clock).readings().len() as int),
            report,
        ),
        final(reporter).lines() == old(reporter).lines() + progress_lines(
            report.commit_points@,
            keys.len(),
        ),
        final(reporter).warnings() == old(reporter).warnings() + report.skipped@,
        final(reporter).endings() == old(reporter).endings().push(
            Progress { done: report.processed, total: keys.len() },
        ),
{
    let ghost job = Job {
        transform: *transform,
        policy,
        source: match source {
            Some(s) => Some(s@.current),
            None => None,
        },
        start: old(dest)@.current,
        keys: keys@,
    };
    let ghost before = old(dest)@;
    let ghost clock0 = old(clock).readings();
    let ghost polls0 = old(cancel).polls();
    let ghost lines0 = old(reporter).lines();
    let ghost warnings0 = old(reporter).warnings();
    let ghost endings0 = old(reporter).endings();
    let total = keys.len();

    let started = clock.read_seconds();
    let mut writer = TransactionalWriter::begin(config, dest, started);
    let mut written: usize = 0;
    let mut skipped: Vec<BlockCoordinate> = Vec::new();
    let mut i: usize = 0;
    let ghost mut readings: Seq<u64> = seq![started];
    proof {
        assert(clock.readings() =~= clock0 + readings);
        assert(cancel.polls() =~= polls0 + quiet_polls(0));
        assert(lines0 + progress_lines(writer.points@, total) =~= lines0);
        assert(warnings0 + skipped@ =~= warnings0);
    }
    while i < total
        invariant
            total == keys.len(),
            i <= total,
            job.keys == keys@,
            job.transform == *transform,
            job.policy == policy,
            job.source == match source {
                Some(s) => Some(s@.current),
                None => None,
            },
            source matches Some(s) ==> s.wf(),
            dest.wf(),
            dest@.in_transaction,
            dest@.current == job.after(i as nat),
            dest@.durable == if writer@.points.len() == 0 {
                before.durable
            } else {
                job.after(writer@.points.last() as nat)
            },
            job.clear_until(i as nat),
            written == job.written(i as nat),
            written <= i,
            skipped@ == job.skipped(i as nat),
            writer.config == config,
            writer@.valid(config),
            writer@ == cadence_after(config, readings, i as nat),
            writer.done == i,
            readings.len() == i + 1,
            clock.readings() == clock0 + readings,
            clock0 == old(clock).readings(),
            polls0 == old(cancel).polls(),
            cancel.polls() == polls0 + quiet_polls(i as nat),
            before == old(dest)@,
            job.start == old(dest)@.current,
            lines0 == old(reporter).lines(),
            warnings0 == old(reporter).warnings(),
            endings0 == old(reporter).endings(),
            reporter.lines() == lines0 + progress_lines(writer.points@, total),
            reporter.warnings() == warnings0 + skipped@,
            reporter.endings() == endings0,
        decreases total - i,
    {
        if cancel.poll() {
            proof {
                lemma_split(clock0, readings);
                lemma_split(polls0, quiet_polls(i as nat).push(true));
                assert(cancel.polls() =~= polls0 + quiet_polls(i as nat).push(true));
            }
            reporter.finish(i, total);
            let commit_points = writer.abandon(dest);
            return RunReport {
                outcome: RunOutcome::Cancelled,
                keys,
                processed: i,
                written,
                skipped,
                commit_points,
            };
        }
        proof {
            assert(cancel.polls() =~= polls0 + quiet_polls((i + 1) as nat));
        }
        let coord = keys[i];
        let record = match source {
            Some(s) => s.load(coord),
            None => dest.load(coord),
        };
        let action = judge(transform, policy, coord, &record);
        assert(action@ == job.verdict_at(i as nat));
        let ghost skipped_before = skipped@;
        match action {
            BlockAction::Write(out) => {
                writer.save(dest, coord, &out);
                written = written + 1;
            },
            BlockAction::Skip => {
                reporter.block_skipped(coord);
                skipped.push(coord);
                proof {
                    assert(warnings0 + skipped@ =~= (warnings0 + skipped_before).push(coord));
                }
            },
            BlockAction::Abort(e) => {
                proof {
                    lemma_split(clock0, readings);
                    lemma_split(polls0, quiet_polls((i + 1) as nat));
                }
                reporter.finish(i, total);
                let commit_points = writer.abandon(dest);
                return RunReport {
                    outcome: RunOutcome::Failed(e),
                    keys,
                    processed: i,
                    written,
                    skipped,
                    commit_points,
                };
            },
        }
        assert(dest@.current == job.after((i + 1) as nat));
        let ghost points_before = writer.points@;
        let now = clock.read_seconds();
        let committed = writer.block_done(dest, now);
        proof {
            let readings_before = readings;
            readings = readings.push(now);
            assert(clock.readings() =~= clock0 + readings);
            lemma_cadence_prefix(config, readings_before, readings, i as nat);
            assert(readings[i + 1] == now);
            assert forall|j: nat| j < i + 1 implies !(#[trigger] job.verdict_at(j) is Abort) by {
                if j < i {
                } else {
                    assert(j == i);
                }
            }
        }
        if committed {
            reporter.progress(i + 1, total);
            proof {
                assert(writer.points@ == points_before.push((i + 1) as usize));
                assert(lines0 + progress_lines(writer.points@, total) =~= (lines0 + progress_lines(
                    points_before,
                    total,
                )).push(Progress { done: (i + 1) as usize, total }));
            }
        }
        i = i + 1;
    }
    proof {
        lemma_split(clock0, readings);
        lemma_split(polls0, quiet_polls(i as nat));
    }
    reporter.finish(i, total);
    let commit_points = writer.finish(dest);
    RunReport {
        outcome: RunOutcome::Completed,
        keys,
        processed: i,
        written,
        skipped,
        commit_points,
    }
}

} // verus!
