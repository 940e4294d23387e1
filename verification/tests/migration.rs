use map_migration::backend::StorageBackend;
use map_migration::cancel::{CancelSignal, CancellationToken, Never, TokenWatch};
use map_migration::clock::{Clock, ManualClock, SystemClock};
use map_migration::coord::BlockCoordinate;
use map_migration::driver::{metadata_warning, migrate_blocks, migrate_map_database};
use map_migration::error::{ConfigurationError, MigrationError};
use map_migration::factory::{
    check_migration_request, create_database, BackendKind, MigrationPlan,
};
use map_migration::memory::MemoryBackend;
use map_migration::metadata::WorldMetadata;
use map_migration::pipeline::{run_pipeline, RunOutcome};
use map_migration::progress::{Progress, ProgressSink, RecordingReporter, SinkReporter};
use map_migration::record::BlockRecord;
use map_migration::transform::{FailurePolicy, Identity};
use map_migration::writer::BatchConfig;

fn payload_for(z: i16) -> Vec<u8> {
    vec![29u8, z as u8, 7, 7]
}

fn source_with_ten_blocks() -> MemoryBackend {
    let mut source = MemoryBackend::new();
    for z in 0..10i16 {
        source.save(BlockCoordinate::new(0, 0, z), &BlockRecord::new(payload_for(z)));
    }
    source
}

fn world_metadata(backend: &str) -> WorldMetadata {
    let mut metadata = WorldMetadata::new();
    metadata.set("gameid", "minetest");
    metadata.set("backend", backend);
    metadata.set("player_backend", "sqlite3");
    metadata
}

/// Raises the token once a batch was committed after `after` blocks.
struct CancelAfter<'a> {
    token: &'a CancellationToken,
    after: usize,
    lines: Vec<Progress>,
}

impl<'a> ProgressSink for CancelAfter<'a> {
    fn progress(&mut self, done: usize, total: usize) {
        self.lines.push(Progress { done, total });
        if done == self.after {
            self.token.cancel();
        }
    }

    fn block_skipped(&mut self, _coord: BlockCoordinate) {}

    fn finish(&mut self, _done: usize, _total: usize) {}
}

#[test]
fn ten_blocks_with_threshold_four_commit_after_fourth_and_eighth() {
    let source = source_with_ten_blocks();
    let mut dest = MemoryBackend::new();
    let cancel = CancellationToken::new();
    let mut clock = ManualClock::fixed(1000);
    let mut reporter = RecordingReporter::new();
    let report = migrate_blocks(
        &source,
        &mut dest,
        BatchConfig::new(4, 1),
        &mut TokenWatch::new(&cancel),
        &mut clock,
        &mut reporter,
    );
    assert_eq!(report.outcome, RunOutcome::Completed);
    assert_eq!(report.processed, 10);
    assert_eq!(report.written, 10);
    assert_eq!(report.commit_points, vec![4, 8]);
    assert_eq!(report.committed(), 10);
    assert_eq!(dest.commit_count(), 3);
    assert_eq!(
        reporter.progress_lines,
        vec![Progress { done: 4, total: 10 }, Progress { done: 8, total: 10 }]
    );
    assert_eq!(reporter.finished, vec![Progress { done: 10, total: 10 }]);
    assert_eq!(reporter.finish_count(), 1);
    assert!(reporter.skipped.is_empty());
    assert!(!dest.in_transaction());
    for z in 0..10i16 {
        let c = BlockCoordinate::new(0, 0, z);
        assert_eq!(dest.load_durable(c).into_bytes(), source.load(c).into_bytes());
        assert_eq!(dest.load_durable(c).into_bytes(), payload_for(z));
    }
    assert_eq!(dest.durable_keys().len(), 10);
}

#[test]
fn empty_block_is_skipped_with_one_warning_and_run_completes() {
    let mut source = source_with_ten_blocks();
    let gap = BlockCoordinate::new(0, 0, 6);
    source.save(gap, &BlockRecord::empty());
    let mut dest = MemoryBackend::new();
    let cancel = CancellationToken::new();
    let mut clock = ManualClock::fixed(5);
    let mut reporter = RecordingReporter::new();
    let report = migrate_blocks(
        &source,
        &mut dest,
        BatchConfig::default(),
        &mut TokenWatch::new(&cancel),
        &mut clock,
        &mut reporter,
    );
    assert_eq!(report.outcome, RunOutcome::Completed);
    assert!(report.outcome.succeeded());
    assert_eq!(report.outcome.exit_status(), 0);
    assert_eq!(report.processed, 10);
    assert_eq!(report.written, 9);
    assert_eq!(report.skipped, vec![gap]);
    assert_eq!(reporter.skipped, vec![gap]);
    assert_eq!(dest.durable_keys().len(), 9);
    assert!(dest.load_durable(gap).is_empty());
    for z in 0..10i16 {
        if z != 6 {
            assert_eq!(dest.load_durable(BlockCoordinate::new(0, 0, z)).into_bytes(), payload_for(z));
        }
    }
}

#[test]
fn migration_into_empty_backend_copies_every_block() {
    let mut source = MemoryBackend::new();
    let coords = [
        BlockCoordinate::new(-3, 7, 12),
        BlockCoordinate::new(0, 0, 0),
        BlockCoordinate::new(i16::MAX, i16::MIN, 1),
    ];
    for (i, c) in coords.iter().enumerate() {
        source.save(*c, &BlockRecord::new(vec![i as u8 + 1; i + 1]));
    }
    let mut dest = MemoryBackend::new();
    let cancel = CancellationToken::new();
    let mut clock = SystemClock::new();
    let mut reporter = RecordingReporter::new();
    let report = migrate_blocks(
        &source,
        &mut dest,
        BatchConfig::default(),
        &mut TokenWatch::new(&cancel),
        &mut clock,
        &mut reporter,
    );
    assert_eq!(report.outcome, RunOutcome::Completed);
    assert_eq!(report.keys, coords.to_vec());
    let mut held = dest.durable_keys();
    held.sort_by_key(|c| (c.x, c.y, c.z));
    let mut expected = coords.to_vec();
    expected.sort_by_key(|c| (c.x, c.y, c.z));
    assert_eq!(held, expected);
    for (i, c) in coords.iter().enumerate() {
        assert_eq!(dest.load_durable(*c).into_bytes(), vec![i as u8 + 1; i + 1]);
    }
}

#[test]
fn migration_of_empty_source_commits_once_and_writes_nothing() {
    let source = MemoryBackend::new();
    let mut dest = MemoryBackend::new();
    let cancel = CancellationToken::new();
    let mut clock = ManualClock::fixed(0);
    let mut reporter = RecordingReporter::new();
    let report = migrate_blocks(
        &source,
        &mut dest,
        BatchConfig::default(),
        &mut TokenWatch::new(&cancel),
        &mut clock,
        &mut reporter,
    );
    assert_eq!(report.outcome, RunOutcome::Completed);
    assert_eq!(report.processed, 0);
    assert!(report.commit_points.is_empty());
    assert_eq!(dest.commit_count(), 1);
    assert!(dest.durable_keys().is_empty());
    assert_eq!(reporter.finished, vec![Progress { done: 0, total: 0 }]);
}

#[test]
fn cancellation_before_first_block_leaves_destination_untouched() {
    let source = source_with_ten_blocks();
    let mut dest = MemoryBackend::new();
    let cancel = CancellationToken::new();
    cancel.cancel();
    assert!(cancel.is_cancelled());
    let mut clock = ManualClock::fixed(0);
    let mut reporter = RecordingReporter::new();
    let report = migrate_blocks(
        &source,
        &mut dest,
        BatchConfig::new(4, 1),
        &mut TokenWatch::new(&cancel),
        &mut clock,
        &mut reporter,
    );
    assert_eq!(report.outcome, RunOutcome::Cancelled);
    assert!(!report.outcome.succeeded());
    assert_eq!(report.outcome.exit_status(), 1);
    assert_eq!(report.processed, 0);
    assert_eq!(report.committed(), 0);
    assert!(dest.durable_keys().is_empty());
    assert_eq!(dest.commit_count(), 0);
    assert_eq!(reporter.finish_count(), 1);
}

#[test]
fn cancellation_right_after_a_commit_keeps_exactly_the_committed_batches() {
    let source = source_with_ten_blocks();
    let mut dest = MemoryBackend::new();
    let cancel = CancellationToken::new();
    let mut clock = ManualClock::fixed(77);
    let mut reporter = SinkReporter::new(CancelAfter { token: &cancel, after: 4, lines: Vec::new() });
    let report = migrate_blocks(
        &source,
        &mut dest,
        BatchConfig::new(4, 1),
        &mut TokenWatch::new(&cancel),
        &mut clock,
        &mut reporter,
    );
    assert_eq!(report.outcome, RunOutcome::Cancelled);
    assert_eq!(report.processed, 4);
    assert_eq!(report.commit_points, vec![4]);
    assert_eq!(report.committed(), 4);
    assert_eq!(reporter.into_sink().lines, vec![Progress { done: 4, total: 10 }]);
    assert_eq!(dest.durable_keys().len(), 4);
    assert!(!dest.in_transaction());
    assert_eq!(dest.list_all_loadable_keys().len(), 4);
    for z in 0..10i16 {
        let c = BlockCoordinate::new(0, 0, z);
        if z < 4 {
            assert_eq!(dest.load_durable(c).into_bytes(), payload_for(z));
            assert_eq!(dest.load(c).into_bytes(), payload_for(z));
        } else {
            assert!(dest.load_durable(c).is_empty());
            assert!(dest.load(c).is_empty());
        }
    }
}

/// Raises the token when a block is passed over.
struct CancelOnSkip<'a> {
    token: &'a CancellationToken,
}

impl<'a> ProgressSink for CancelOnSkip<'a> {
    fn progress(&mut self, _done: usize, _total: usize) {}

    fn block_skipped(&mut self, _coord: BlockCoordinate) {
        self.token.cancel();
    }

    fn finish(&mut self, _done: usize, _total: usize) {}
}

#[test]
fn cancellation_in_mid_batch_loses_only_the_open_batch() {
    let mut source = source_with_ten_blocks();
    source.save(BlockCoordinate::new(0, 0, 5), &BlockRecord::empty());
    let mut dest = MemoryBackend::new();
    let cancel = CancellationToken::new();
    let mut clock = ManualClock::fixed(0);
    let mut reporter = SinkReporter::new(CancelOnSkip { token: &cancel });
    let report = migrate_blocks(
        &source,
        &mut dest,
        BatchConfig::new(4, 10),
        &mut TokenWatch::new(&cancel),
        &mut clock,
        &mut reporter,
    );
    assert_eq!(report.outcome, RunOutcome::Cancelled);
    assert_eq!(report.processed, 6);
    assert_eq!(report.written, 5);
    assert_eq!(report.skipped, vec![BlockCoordinate::new(0, 0, 5)]);
    assert_eq!(report.commit_points, vec![4]);
    assert_eq!(report.committed(), 4);
    assert!(!dest.in_transaction());
    assert_eq!(dest.durable_keys().len(), 4);
    assert_eq!(dest.list_all_loadable_keys().len(), 4);
    assert!(dest.load(BlockCoordinate::new(0, 0, 4)).is_empty());
    assert_eq!(dest.load(BlockCoordinate::new(0, 0, 3)).into_bytes(), payload_for(3));
}

#[test]
fn pipeline_goes_through_the_keys_it_is_given_in_their_order() {
    let source = source_with_ten_blocks();
    let mut dest = MemoryBackend::new();
    let cancel = CancellationToken::new();
    let mut clock = ManualClock::fixed(0);
    let mut reporter = RecordingReporter::new();
    let keys = vec![
        BlockCoordinate::new(0, 0, 7),
        BlockCoordinate::new(0, 0, 2),
        BlockCoordinate::new(8, 8, 8),
    ];
    let report = run_pipeline(
        keys.clone(),
        Some(&source),
        &mut dest,
        &Identity,
        FailurePolicy::Skip,
        BatchConfig::new(2, 1),
        &mut TokenWatch::new(&cancel),
        &mut clock,
        &mut reporter,
    );
    assert_eq!(report.outcome, RunOutcome::Completed);
    assert_eq!(report.keys, keys);
    assert_eq!(report.written, 2);
    assert_eq!(report.skipped, vec![BlockCoordinate::new(8, 8, 8)]);
    assert_eq!(report.commit_points, vec![2]);
    assert_eq!(
        dest.durable_keys(),
        vec![BlockCoordinate::new(0, 0, 7), BlockCoordinate::new(0, 0, 2)]
    );
    let mut strict = MemoryBackend::new();
    let failed = run_pipeline(
        keys,
        Some(&source),
        &mut strict,
        &Identity,
        FailurePolicy::Abort,
        BatchConfig::new(2, 1),
        &mut TokenWatch::new(&cancel),
        &mut clock,
        &mut reporter,
    );
    assert_eq!(
        failed.outcome,
        RunOutcome::Failed(MigrationError::BlockLoad(BlockCoordinate::new(8, 8, 8)))
    );
    assert_eq!(failed.processed, 2);
}

#[test]
fn rerun_after_cancelled_run_gives_what_one_whole_run_gives() {
    let source = source_with_ten_blocks();

    let mut whole = MemoryBackend::new();
    let mut clock = ManualClock::fixed(1);
    let mut reporter = RecordingReporter::new();
    let report = migrate_blocks(
        &source,
        &mut whole,
        BatchConfig::new(4, 1),
        &mut Never::new(),
        &mut clock,
        &mut reporter,
    );
    assert_eq!(report.outcome, RunOutcome::Completed);

    let mut dest = MemoryBackend::new();
    let cancel = CancellationToken::new();
    let mut stopper = SinkReporter::new(CancelAfter { token: &cancel, after: 8, lines: Vec::new() });
    let first = migrate_blocks(
        &source,
        &mut dest,
        BatchConfig::new(4, 1),
        &mut TokenWatch::new(&cancel),
        &mut clock,
        &mut stopper,
    );
    assert_eq!(first.outcome, RunOutcome::Cancelled);
    assert_eq!(first.processed, 8);
    assert!(!dest.in_transaction());

    let again = migrate_blocks(
        &source,
        &mut dest,
        BatchConfig::new(4, 1),
        &mut Never::new(),
        &mut clock,
        &mut reporter,
    );
    assert_eq!(again.outcome, RunOutcome::Completed);
    assert_eq!(again.written, 10);
    let mut a = dest.durable_keys();
    let mut b = whole.durable_keys();
    a.sort_by_key(|c| (c.x, c.y, c.z));
    b.sort_by_key(|c| (c.x, c.y, c.z));
    assert_eq!(a, b);
    for c in a {
        assert_eq!(dest.load_durable(c).into_bytes(), whole.load_durable(c).into_bytes());
    }
}

#[test]
fn migration_overwrites_what_the_destination_held_and_keeps_the_rest() {
    let source = source_with_ten_blocks();
    let mut dest = MemoryBackend::new();
    let kept = BlockCoordinate::new(5, 5, 5);
    dest.save(kept, &BlockRecord::new(vec![1, 2, 3]));
    dest.save(BlockCoordinate::new(0, 0, 2), &BlockRecord::new(vec![9, 9]));
    let cancel = CancellationToken::new();
    let mut clock = ManualClock::fixed(0);
    let mut reporter = RecordingReporter::new();
    let report = migrate_blocks(
        &source,
        &mut dest,
        BatchConfig::default(),
        &mut TokenWatch::new(&cancel),
        &mut clock,
        &mut reporter,
    );
    assert_eq!(report.outcome, RunOutcome::Completed);
    assert_eq!(dest.load_durable(kept).into_bytes(), vec![1, 2, 3]);
    assert_eq!(dest.load_durable(BlockCoordinate::new(0, 0, 2)).into_bytes(), payload_for(2));
    assert_eq!(dest.durable_keys().len(), 11);
}

#[test]
fn time_gate_commits_every_block_when_a_second_goes_by_each_time() {
    let source = source_with_ten_blocks();
    let mut dest = MemoryBackend::new();
    let cancel = CancellationToken::new();
    let mut clock = ManualClock::new(100, 1);
    let mut reporter = RecordingReporter::new();
    let report = migrate_blocks(
        &source,
        &mut dest,
        BatchConfig::default(),
        &mut TokenWatch::new(&cancel),
        &mut clock,
        &mut reporter,
    );
    assert_eq!(report.commit_points, vec![1, 2, 3, 4, 5, 6, 7, 8, 9, 10]);
    assert_eq!(dest.commit_count(), 11);
    assert_eq!(clock.read_seconds(), 111);
}

#[test]
fn default_threshold_commits_after_255_blocks() {
    let mut source = MemoryBackend::new();
    for i in 0..300i16 {
        source.save(BlockCoordinate::new(i, 0, 0), &BlockRecord::new(vec![1]));
    }
    let mut dest = MemoryBackend::new();
    let cancel = CancellationToken::new();
    let mut clock = ManualClock::fixed(9);
    let mut reporter = RecordingReporter::new();
    let report = migrate_blocks(
        &source,
        &mut dest,
        BatchConfig::default(),
        &mut TokenWatch::new(&cancel),
        &mut clock,
        &mut reporter,
    );
    assert_eq!(BatchConfig::default(), BatchConfig::new(255, 1));
    assert_eq!(report.commit_points, vec![255]);
    assert_eq!(reporter.progress_lines, vec![Progress { done: 255, total: 300 }]);
    assert_eq!(dest.durable_keys().len(), 300);
}

#[test]
fn same_backend_is_refused_and_nothing_is_touched() {
    let source = source_with_ten_blocks();
    let mut dest = MemoryBackend::new();
    let mut metadata = world_metadata("dummy");
    let cancel = CancellationToken::new();
    let mut clock = ManualClock::fixed(3);
    let mut reporter = RecordingReporter::new();
    let result = migrate_map_database(
        &mut metadata,
        "dummy",
        &source,
        &mut dest,
        BatchConfig::default(),
        &mut TokenWatch::new(&cancel),
        &mut clock,
        &mut reporter,
    );
    assert_eq!(
        result.err(),
        Some(MigrationError::Configuration(ConfigurationError::SameBackend))
    );
    assert!(dest.durable_keys().is_empty());
    assert!(dest.list_all_loadable_keys().is_empty());
    assert_eq!(dest.commit_count(), 0);
    assert!(!dest.in_transaction());
    assert_eq!(source.list_all_loadable_keys().len(), 10);
    assert_eq!(metadata.backend(), Some("dummy".to_string()));
    assert_eq!(reporter.finish_count(), 0);
    assert_eq!(clock.read_seconds(), 3);
}

#[test]
fn same_unknown_backend_is_refused_as_same() {
    let metadata = world_metadata("leveldb");
    assert_eq!(
        check_migration_request(&metadata, "leveldb"),
        Err(MigrationError::Configuration(ConfigurationError::SameBackend))
    );
}

#[test]
fn unknown_backend_is_a_configuration_error() {
    let metadata = world_metadata("sqlite3");
    assert_eq!(
        check_migration_request(&metadata, "leveldb"),
        Err(MigrationError::Configuration(ConfigurationError::UnknownBackend))
    );
    let odd = world_metadata("papyrus");
    assert_eq!(
        check_migration_request(&odd, "dummy"),
        Err(MigrationError::Configuration(ConfigurationError::UnknownBackend))
    );
    assert_eq!(
        BackendKind::from_identifier(""),
        Err(MigrationError::Configuration(ConfigurationError::UnknownBackend))
    );
}

#[test]
fn missing_backend_entry_is_a_configuration_error() {
    let mut metadata = WorldMetadata::new();
    metadata.set("gameid", "minetest");
    assert_eq!(
        check_migration_request(&metadata, "dummy"),
        Err(MigrationError::Configuration(ConfigurationError::MissingBackend))
    );
}

#[test]
fn accepted_request_names_both_backends() {
    let metadata = world_metadata("sqlite3");
    assert_eq!(
        check_migration_request(&metadata, "dummy"),
        Ok(MigrationPlan { from: BackendKind::Sqlite3, to: BackendKind::Dummy })
    );
    assert_eq!(BackendKind::Sqlite3.identifier(), "sqlite3");
    assert_eq!(BackendKind::Dummy.identifier(), "dummy");
    assert_eq!(BackendKind::from_identifier("dummy"), Ok(BackendKind::Dummy));
    assert_eq!(BackendKind::from_identifier("sqlite3"), Ok(BackendKind::Sqlite3));
}

#[test]
fn completed_migration_rewrites_only_the_backend_entry() {
    let source = source_with_ten_blocks();
    let mut dest = MemoryBackend::new();
    let mut metadata = world_metadata("sqlite3");
    let cancel = CancellationToken::new();
    let mut clock = ManualClock::fixed(3);
    let mut reporter = RecordingReporter::new();
    let report = migrate_map_database(
        &mut metadata,
        "dummy",
        &source,
        &mut dest,
        BatchConfig::default(),
        &mut TokenWatch::new(&cancel),
        &mut clock,
        &mut reporter,
    )
    .unwrap();
    assert_eq!(report.outcome, RunOutcome::Completed);
    assert_eq!(report.processed, 10);
    assert_eq!(metadata.len(), 3);
    assert_eq!(metadata.entry(0), ("gameid".to_string(), "minetest".to_string()));
    assert_eq!(metadata.entry(1), ("backend".to_string(), "dummy".to_string()));
    assert_eq!(metadata.entry(2), ("player_backend".to_string(), "sqlite3".to_string()));
    assert_eq!(dest.durable_keys().len(), 10);
}

#[test]
fn cancelled_migration_leaves_the_metadata_alone() {
    let source = source_with_ten_blocks();
    let mut dest = MemoryBackend::new();
    let mut metadata = world_metadata("sqlite3");
    let cancel = CancellationToken::new();
    cancel.cancel();
    let mut clock = ManualClock::fixed(3);
    let mut reporter = RecordingReporter::new();
    let report = migrate_map_database(
        &mut metadata,
        "dummy",
        &source,
        &mut dest,
        BatchConfig::default(),
        &mut TokenWatch::new(&cancel),
        &mut clock,
        &mut reporter,
    )
    .unwrap();
    assert_eq!(report.outcome, RunOutcome::Cancelled);
    assert_eq!(metadata.backend(), Some("sqlite3".to_string()));
    assert_eq!(metadata.len(), 3);
}

#[test]
fn only_a_metadata_write_error_is_not_fatal() {
    assert!(!MigrationError::MetadataWrite.is_fatal());
    assert!(MigrationError::BackendOpen.is_fatal());
    assert!(MigrationError::Configuration(ConfigurationError::SameBackend).is_fatal());
    assert!(MigrationError::BlockLoad(BlockCoordinate::new(0, 0, 0)).is_fatal());
}

#[test]
fn signals_answer_as_their_kind_says() {
    let token = CancellationToken::new();
    let mut watch = TokenWatch::new(&token);
    assert!(!watch.poll());
    token.cancel();
    assert!(watch.poll());
    assert!(watch.poll());
    let mut never = Never::new();
    assert!(!never.poll());
    assert!(!never.poll());
}

#[test]
fn only_the_store_in_memory_can_be_opened() {
    let metadata = world_metadata("dummy");
    let db = create_database(BackendKind::Dummy, "/w/alpha", &metadata).unwrap();
    assert!(db.list_all_loadable_keys().is_empty());
    assert_eq!(
        create_database(BackendKind::Sqlite3, "/w/alpha", &metadata).err(),
        Some(MigrationError::BackendOpen)
    );
}

#[test]
fn unwritten_metadata_is_a_warning_after_a_completed_run_only() {
    assert_eq!(
        metadata_warning(RunOutcome::Completed, false),
        Some(MigrationError::MetadataWrite)
    );
    assert_eq!(metadata_warning(RunOutcome::Completed, true), None);
    assert_eq!(metadata_warning(RunOutcome::Cancelled, false), None);
    assert_eq!(
        metadata_warning(RunOutcome::Failed(MigrationError::BackendOpen), false),
        None
    );
    assert_eq!(RunOutcome::Completed.exit_status(), 0);
}
