use vstd::prelude::*;
use crate::backend::StorageBackend;
use crate::cancel::CancelSignal;
use crate::clock::Clock;
use crate::codec::{BlockCodec, BlockFormat};
use crate::error::MigrationError;
use crate::factory::{check_migration_request, migration_plan};
use crate::job::{loadable, migration, recompressed_content, recompression, Job};
use crate::laws::{
    lemma_migration_complete, lemma_recompression_complete, lemma_verdict_from_start,
};
use crate::metadata::{with_value, WorldMetadata};
use crate::pipeline::{progress_lines, run_pipeline, run_result, RunOutcome, RunReport};
use crate::progress::{Progress, ProgressReporter};
use crate::transform::{verdict, FailurePolicy, Identity, Verdict};
use crate::writer::BatchConfig;

verus! {

/// Copies every block of `source` into `dest`, unchanged and under its
/// coordinate. A block without payload is passed over with a warning.
pub fn migrate_blocks<S, D, K, C, P>(
    source: &S,
    dest: &mut D,
    config: BatchConfig,
    cancel: &mut K,
    clock: &mut C,
    reporter: &mut P,
) -> (report: RunReport) where
    S: StorageBackend,
    D: StorageBackend,
    K: CancelSignal,
    C: Clock,
    P: ProgressReporter,

    requires
        source.wf(),
        old(dest).wf(),
    ensures
        final(dest).wf(),
        report.keys@.no_duplicates(),
        report.keys@.to_set() == source@.current.dom(),
        !(report.outcome is Failed),
        old(cancel).polls() == final(cancel).polls().take(old(cancel).polls().len() as int),
        old(clock).readings() == final(clock).readings().take(old(clock).readings().len() as int),
        run_result(
            migration(source@.current, old(dest)@.current, report.keys@),
            config,
            old(dest)@,
            final(dest)@,
            final(cancel).polls().skip(old(cancel).polls().len() as int),
            final(clock).readings().skip(old(clock).readings().len() as int),
            report,
        ),
        report.outcome is Completed ==> final(dest)@.durable == old(
            dest,
        )@.current.union_prefer_right(loadable(source@.current)),
        final(reporter).lines() == old(reporter).lines() + progress_lines(
            report.commit_points@,
            report.keys.len(),
        ),
        final(reporter).warnings() == old(reporter).warnings() + report.skipped@,
        final(reporter).endings() == old(reporter).endings().push(
            Progress { done: report.processed, total: report.keys.len() },
        ),
{
    let keys = source.list_all_loadable_keys();
    let transform = Identity;
    let report = run_pipeline(
        keys,
        Some(source),
        dest,
        &transform,
        FailurePolicy::Skip,
        config,
        cancel,
        clock,
        reporter,
    );
    proof {
        lemma_migration_complete(source@.current, old(dest)@.current, report.keys@);
    }
    report
}

/// Recompresses the map of a world: decodes every block of `db` and writes it
/// anew, in place, at the highest version that `codec` writes. A block that
/// yields no payload, or one that cannot be decoded, stops the run. The
/// world's metadata has no part in it: the backend stays the one it was.
pub fn recompress_map_database<D, F, K, C, P>(
    db: &mut D,
    codec: &BlockCodec<F>,
    config: BatchConfig,
    cancel: &mut K,
    clock: &mut C,
    reporter: &mut P,
) -> (report: RunReport) where
    D: StorageBackend,
    F: BlockFormat,
    K: CancelSignal,
    C: Clock,
    P: ProgressReporter,

    requires
        old(db).wf(),
    ensures
        final(db).wf(),
        report.keys@.no_duplicates(),
        report.keys@.to_set() == old(db)@.current.dom(),
        report.skipped@.len() == 0,
        old(cancel).polls() == final(cancel).polls().take(old(cancel).polls().len() as int),
        old(clock).readings() == final(clock).readings().take(old(clock).readings().len() as int),
        run_result(
            recompression(*codec, old(db)@.current, report.keys@),
            config,
            old(db)@,
            final(db)@,
            final(cancel).polls().skip(old(cancel).polls().len() as int),
            final(clock).readings().skip(old(clock).readings().len() as int),
            report,
        ),
        report.outcome is Completed ==> final(db)@.durable == recompressed_content(
            codec.format,
            old(db)@.current,
        ),
        forall|i: int|
            0 <= i < report.processed ==> verdict(
                *codec,
                FailurePolicy::Abort,
                #[trigger] report.keys@[i],
                old(db)@.current[report.keys@[i]],
            ) is Write,
        report.outcome matches RunOutcome::Failed(e) ==> verdict(
            *codec,
            FailurePolicy::Abort,
            report.keys@[report.processed as int],
            old(db)@.current[report.keys@[report.processed as int]],
        ) == Verdict::Abort(e),
        final(reporter).lines() == old(reporter).lines() + progress_lines(
            report.commit_points@,
            report.keys.len(),
        ),
        final(reporter).warnings() == old(reporter).warnings(),
        final(reporter).endings() == old(reporter).endings().push(
            Progress { done: report.processed, total: report.keys.len() },
        ),
{
    let keys = db.list_all_loadable_keys();
    let report = run_pipeline::<D, D, BlockCodec<F>, K, C, P>(
        keys,
        None,
        db,
        codec,
        FailurePolicy::Abort,
        config,
        cancel,
        clock,
        reporter,
    );
    proof {
        let job = recompression(*codec, old(db)@.current, report.keys@);
        lemma_never_skipped(job, report.processed as nat);
        if report.outcome is Completed {
            lemma_recompression_complete(*codec, old(db)@.current, report.keys@);
        }
        assert forall|i: int| 0 <= i < report.processed implies verdict(
            *codec,
            FailurePolicy::Abort,
            #[trigger] report.keys@[i],
            old(db)@.current[report.keys@[i]],
        ) is Write by {
            lemma_verdict_from_start(job, i as nat);
            assert(report.keys@.to_set().contains(report.keys@[i]));
            assert(!(job.verdict_at(i as nat) is Abort));
        }
        if report.outcome is Failed {
            lemma_verdict_from_start(job, report.processed as nat);
            assert(report.keys@.to_set().contains(report.keys@[report.processed as int]));
        }
        assert(old(reporter).warnings() + report.skipped@ =~= old(reporter).warnings());
    }
    report
}

/// A run that stops on a missing payload passes no block over.
proof fn lemma_never_skipped<F: BlockFormat>(job: Job<BlockCodec<F>>, n: nat)
    requires
        job.policy == FailurePolicy::Abort,
    ensures
        job.skipped(n).len() == 0,
    decreases n,
{
    if n > 0 {
        lemma_never_skipped(job, (n - 1) as nat);
    }
}

/// Migrates the map of a world to the backend named `migrate_to`.
///
/// The request is judged by the metadata before anything else is done: where
/// it is refused, no store, clock or reporter is touched. Else the blocks of
/// `source` are copied into `dest`. The metadata's backend entry is set to
/// `migrate_to` only after a run that completed, when every block is durable
/// in `dest`; no other entry changes.
pub fn migrate_map_database<S, D, K, C, P>(
    metadata: &mut WorldMetadata,
    migrate_to: &str,
    source: &S,
    dest: &mut D,
    config: BatchConfig,
    cancel: &mut K,
    clock: &mut C,
    reporter: &mut P,
) -> (result: Result<RunReport, MigrationError>) where
    S: StorageBackend,
    D: StorageBackend,
    K: CancelSignal,
    C: Clock,
    P: ProgressReporter,

    requires
        source.wf(),
        old(dest).wf(),
    ensures
        final(dest).wf(),
        match result {
            Err(e) => {
                &&& migration_plan(old(metadata)@, migrate_to@) == Err::<
                    crate::factory::MigrationPlan,
                    _,
                >(e)
                &&& final(metadata)@ == old(metadata)@
                &&& final(dest)@ == old(dest)@
                &&& final(cancel).polls() == old(cancel).polls()
                &&& final(clock).readings() == old(clock).readings()
                &&& final(reporter).lines() == old(reporter).lines()
                &&& final(reporter).warnings() == old(reporter).warnings()
                &&& final(reporter).endings() == old(reporter).endings()
            },
            Ok(report) => {
                &&& migration_plan(old(metadata)@, migrate_to@) is Ok
                &&& report.keys@.no_duplicates()
                &&& report.keys@.to_set() == source@.current.dom()
                &&& !(report.outcome is Failed)
                &&& old(cancel).polls() == final(cancel).polls().take(
                    old(cancel).polls().len() as int,
                )
                &&& old(clock).readings() == final(clock).readings().take(
                    old(clock).readings().len() as int,
                )
                &&& run_result(
                    migration(source@.current, old(dest)@.current, report.keys@),
                    config,
                    old(dest)@,
                    final(dest)@,
                    final(cancel).polls().skip(old(cancel).polls().len() as int),
                    final(clock).readings().skip(old(clock).readings().len() as int),
                    report,
                )
                &&& final(metadata)@ == if report.outcome is Completed {
                    with_value(old(metadata)@, WorldMetadata::backend_key(), migrate_to@)
                } else {
                    old(metadata)@
                }
                &&& report.outcome is Completed ==> final(dest)@.durable == old(
                    dest,
                )@.current.union_prefer_right(loadable(source@.current))
                &&& final(reporter).lines() == old(reporter).lines() + progress_lines(
                    report.commit_points@,
                    report.keys.len(),
                )
                &&& final(reporter).warnings() == old(reporter).warnings() + report.skipped@
                &&& final(reporter).endings() == old(reporter).endings().push(
                    Progress { done: report.processed, total: report.keys.len() },
                )
            },
        },
{
    match check_migration_request(metadata, migrate_to) {
        Err(e) => Err(e),
        Ok(_) => {
            let report = migrate_blocks(source, dest, config, cancel, clock, reporter);
            if report.outcome.succeeded() {
                metadata.set_backend(migrate_to);
            }
            Ok(report)
        },
    }
}

/// A migration that opened its stores itself: what it did, and the two
/// stores as it left them.
pub struct WorldMigration<S, D> {
    pub report: RunReport,
    /// The store that was read. The run changed nothing in it.
    pub source: S,
    /// The store that was written, released.
    pub dest: D,
    /// What the destination held when it was opened.
    pub opened: Ghost<crate::backend::StoreView>,
}

/// Migrates the map of the world at `location` from its store of the kind
/// `S` to one of the kind `D`, which the metadata names `migrate_to`.
///
/// The request is judged by the metadata first: where it is refused, no
/// store is opened. Then the source is opened and after it the destination:
/// where either cannot be, the run ends before a block is carried over, and
/// no question was asked, no clock read and nothing reported. Then the
/// blocks are copied as `migrate_map_database` copies them.
pub fn migrate_world<S, D, K, C, P>(
    metadata: &mut WorldMetadata,
    migrate_to: &str,
    location: &str,
    config: BatchConfig,
    cancel: &mut K,
    clock: &mut C,
    reporter: &mut P,
) -> (result: Result<WorldMigration<S, D>, MigrationError>) where
    S: StorageBackend,
    D: StorageBackend,
    K: CancelSignal,
    C: Clock,
    P: ProgressReporter,

    ensures
        match result {
            Err(e) => {
                &&& match migration_plan(old(metadata)@, migrate_to@) {
                    Err(refused) => e == refused,
                    Ok(_) => e == MigrationError::BackendOpen,
                }
                &&& final(metadata)@ == old(metadata)@
                &&& final(cancel).polls() == old(cancel).polls()
                &&& final(clock).readings() == old(clock).readings()
                &&& final(reporter).lines() == old(reporter).lines()
                &&& final(reporter).warnings() == old(reporter).warnings()
                &&& final(reporter).endings() == old(reporter).endings()
            },
            Ok(run) => {
                &&& migration_plan(old(metadata)@, migrate_to@) is Ok
                &&& run.source.wf()
                &&& !run.source@.in_transaction
                &&& run.dest.wf()
                &&& run.opened@.valid()
                &&& !run.opened@.in_transaction
                &&& run.report.keys@.no_duplicates()
                &&& run.report.keys@.to_set() == run.source@.current.dom()
                &&& !(run.report.outcome is Failed)
                &&& old(cancel).polls() == final(cancel).polls().take(
                    old(cancel).polls().len() as int,
                )
                &&& old(clock).readings() == final(clock).readings().take(
                    old(clock).readings().len() as int,
                )
                &&& run_result(
                    migration(run.source@.current, run.opened@.current, run.report.keys@),
                    config,
                    run.opened@,
                    run.dest@,
                    final(cancel).polls().skip(old(cancel).polls().len() as int),
                    final(clock).readings().skip(old(clock).readings().len() as int),
                    run.report,
                )
                &&& final(metadata)@ == if run.report.outcome is Completed {
                    with_value(old(metadata)@, WorldMetadata::backend_key(), migrate_to@)
                } else {
                    old(metadata)@
                }
                &&& run.report.outcome is Completed ==> run.dest@.durable
                    == run.opened@.current.union_prefer_right(loadable(run.source@.current))
                &&& final(reporter).lines() == old(reporter).lines() + progress_lines(
                    run.report.commit_points@,
                    run.report.keys.len(),
                )
                &&& final(reporter).warnings() == old(reporter).warnings()
                    + run.report.skipped@
                &&& final(reporter).endings() == old(reporter).endings().push(
                    Progress { done: run.report.processed, total: run.report.keys.len() },
                )
            },
        },
{
    match check_migration_request(metadata, migrate_to) {
        Err(e) => {
            return Err(e);
        },
        Ok(_) => {},
    }
    let source = match S::open(location, metadata) {
        Ok(source) => source,
        Err(e) => {
            return Err(e);
        },
    };
    let mut dest = match D::open(location, metadata) {
        Ok(dest) => dest,
        Err(e) => {
            return Err(e);
        },
    };
    let opened = Ghost(dest@);
    proof {
        dest.lemma_wf_valid();
    }
    let report = migrate_blocks(&source, &mut dest, config, cancel, clock, reporter);
    if report.outcome.succeeded() {
        metadata.set_backend(migrate_to);
    }
    Ok(WorldMigration { report, source, dest, opened })
}

/// What is made of the attempt to persist the metadata after a run: a
/// warning where the run completed and the metadata could not be written,
/// nothing else. The run's outcome is not touched by it.
pub fn metadata_warning(outcome: RunOutcome, persisted: bool) -> (warning: Option<MigrationError>)
    ensures
        warning == if outcome is Completed && !persisted {
            Some(MigrationError::MetadataWrite)
        } else {
            None
        },
{
    match outcome {
        RunOutcome::Completed => if persisted {
            None
        } else {
            Some(MigrationError::MetadataWrite)
        },
        _ => None,
    }
}

} // verus!
