use vstd::prelude::*;
use crate::backend::{payload_at, Content, StoreView};
use crate::codec::{recompressed, BlockCodec, BlockFormat};
use crate::coord::BlockCoordinate;
use crate::job::{
    apply_verdict, first_keys, loadable, migration, recompressed_content, recompression, settled,
    Job,
};
use crate::pipeline::{run_result, RunReport};
use crate::transform::BlockTransform;
use crate::writer::{cadence_after, elapsed_between, BatchConfig, Cadence};

verus! {

proof fn lemma_first_keys_step(keys: Seq<BlockCoordinate>, n: nat)
    requires
        0 < n <= keys.len(),
    ensures
        first_keys(keys, n) == first_keys(keys, (n - 1) as nat).insert(keys[n - 1]),
        keys.no_duplicates() ==> !first_keys(keys, (n - 1) as nat).contains(keys[n - 1]),
{
    let a = keys.take(n - 1);
    let b = keys.take(n as int);
    assert(b =~= a.push(keys[n - 1]));
    assert forall|c: BlockCoordinate| b.to_set().contains(c) == a.to_set().insert(
        keys[n - 1],
    ).contains(c) by {
        if b.contains(c) {
            let i = choose|i: int| 0 <= i < b.len() && b[i] == c;
            if i < n - 1 {
                assert(a[i] == c);
            }
        }
        if a.contains(c) {
            let i = choose|i: int| 0 <= i < a.len() && a[i] == c;
            assert(b[i] == c);
        }
        if c == keys[n - 1] {
            assert(b[n - 1] == c);
        }
    }
    assert(b.to_set() =~= a.to_set().insert(keys[n - 1]));
    if keys.no_duplicates() && a.contains(keys[n - 1]) {
        let i = choose|i: int| 0 <= i < a.len() && a[i] == keys[n - 1];
        assert(keys[i] == keys[n - 1]);
    }
}

/// The order of a run does not show in what it leaves: after the first `n`
/// blocks the destination holds what it held, but for the blocks written.
/// A run in place must not take a coordinate twice for this to hold.
pub proof fn lemma_after_is_settled<T: BlockTransform>(job: Job<T>, n: nat)
    requires
        n <= job.keys.len(),
        job.source is None ==> job.keys.no_duplicates(),
    ensures
        job.after(n) == settled(job, first_keys(job.keys, n)),
    decreases n,
{
    if n == 0 {
        assert(job.keys.take(0) =~= Seq::empty());
        assert(first_keys(job.keys, 0) =~= Set::empty());
        assert(job.after(0) =~= settled(job, first_keys(job.keys, 0)));
    } else {
        let m = (n - 1) as nat;
        lemma_after_is_settled(job, m);
        lemma_first_keys_step(job.keys, n);
        let c = job.keys[n - 1];
        let before = job.after(m);
        assert(payload_at(job.reads_from(before), c) == payload_at(job.reads_from(job.start), c));
        assert(job.verdict_in(before, c) == job.verdict_in(job.start, c));
        assert(job.after(n) == apply_verdict(before, c, job.verdict_in(job.start, c)));
        assert(job.after(n) =~= settled(job, first_keys(job.keys, n)));
    }
}

/// No block stops a migration.
pub proof fn law_migration_never_aborts(
    source: Content,
    start: Content,
    keys: Seq<BlockCoordinate>,
    i: nat,
)
    ensures
        !(migration(source, start, keys).verdict_at(i) is Abort),
{
}

/// A migration that went through the first `n` blocks leaves in the
/// destination what was there, with those of the first `n` blocks that yield
/// a payload laid over it: nothing of a later block, and nothing in part.
pub proof fn law_migration_partial(
    source: Content,
    start: Content,
    keys: Seq<BlockCoordinate>,
    n: nat,
)
    requires
        n <= keys.len(),
    ensures
        migration(source, start, keys).after(n) == start.union_prefer_right(
            loadable(source).restrict(first_keys(keys, n)),
        ),
{
    let job = migration(source, start, keys);
    lemma_after_is_settled(job, n);
    assert(settled(job, first_keys(keys, n)) =~= start.union_prefer_right(
        loadable(source).restrict(first_keys(keys, n)),
    ));
}

/// A migration that went through every block leaves in the destination what
/// was there, with every block of the source that yields a payload laid over
/// it.
pub proof fn lemma_migration_complete(
    source: Content,
    start: Content,
    keys: Seq<BlockCoordinate>,
)
    requires
        keys.to_set() == source.dom(),
    ensures
        migration(source, start, keys).after(keys.len()) == start.union_prefer_right(
            loadable(source),
        ),
{
    let job = migration(source, start, keys);
    lemma_after_is_settled(job, keys.len());
    assert(keys.take(keys.len() as int) =~= keys);
    assert(settled(job, source.dom()) =~= start.union_prefer_right(loadable(source)));
}

/// Migrating any set of blocks, none of them without payload, into an empty
/// destination yields a destination that holds exactly those blocks, each
/// with the payload it had.
pub proof fn law_migration_into_empty_copies_all(source: Content, keys: Seq<BlockCoordinate>)
    requires
        keys.to_set() == source.dom(),
        forall|c: BlockCoordinate| source.contains_key(c) ==> (#[trigger] source[c]).len() > 0,
    ensures
        migration(source, Map::empty(), keys).after(keys.len()) == source,
{
    lemma_migration_complete(source, Map::empty(), keys);
    assert(Content::empty().union_prefer_right(loadable(source)) =~= source);
}

/// Running a migration again after part of it was done gives what one whole
/// run gives: the first run may have stopped after any number `k` of blocks,
/// and the second may take the blocks in another order.
pub proof fn law_rerun_after_partial_run(
    source: Content,
    start: Content,
    first: Seq<BlockCoordinate>,
    k: nat,
    again: Seq<BlockCoordinate>,
)
    requires
        first.to_set() == source.dom(),
        again.to_set() == source.dom(),
        k <= first.len(),
    ensures
        migration(source, migration(source, start, first).after(k), again).after(again.len())
            == migration(source, start, first).after(first.len()),
{
    let partial = migration(source, start, first).after(k);
    lemma_after_is_settled(migration(source, start, first), k);
    lemma_migration_complete(source, start, first);
    lemma_migration_complete(source, partial, again);
    assert forall|c: BlockCoordinate| first_keys(first, k).contains(c) implies source.contains_key(
        c,
    ) by {
        let t = first.take(k as int);
        let i = choose|i: int| 0 <= i < t.len() && t[i] == c;
        assert(first[i] == c);
        assert(first.contains(c));
        assert(first.to_set().contains(c));
    }
    assert(partial.union_prefer_right(loadable(source)) =~= start.union_prefer_right(
        loadable(source),
    ));
}

/// Migration is idempotent: a second whole run changes nothing.
pub proof fn law_migration_idempotent(
    source: Content,
    start: Content,
    first: Seq<BlockCoordinate>,
    again: Seq<BlockCoordinate>,
)
    requires
        first.to_set() == source.dom(),
        again.to_set() == source.dom(),
    ensures
        migration(
            source,
            migration(source, start, first).after(first.len()),
            again,
        ).after(again.len()) == migration(source, start, first).after(first.len()),
{
    law_rerun_after_partial_run(source, start, first, first.len(), again);
}

/// In a run that takes no coordinate twice, what becomes of a block depends
/// on what the stores held at the start alone, not on the blocks before it.
pub proof fn lemma_verdict_from_start<T: BlockTransform>(job: Job<T>, i: nat)
    requires
        i < job.keys.len(),
        job.source is None ==> job.keys.no_duplicates(),
    ensures
        job.verdict_at(i) == job.verdict_in(job.start, job.keys[i as int]),
{
    lemma_after_is_settled(job, i);
    lemma_first_keys_step(job.keys, i + 1);
    let c = job.keys[i as int];
    assert(payload_at(job.reads_from(job.after(i)), c) == payload_at(
        job.reads_from(job.start),
        c,
    ));
}

/// A recompression that went through every block has put each payload anew
/// under its coordinate, and holds the coordinates it held.
pub proof fn lemma_recompression_complete<F: BlockFormat>(
    codec: BlockCodec<F>,
    start: Content,
    keys: Seq<BlockCoordinate>,
)
    requires
        keys.no_duplicates(),
        keys.to_set() == start.dom(),
        recompression(codec, start, keys).clear_until(keys.len()),
    ensures
        recompression(codec, start, keys).after(keys.len()) == recompressed_content(
            codec.format,
            start,
        ),
        forall|c: BlockCoordinate|
            start.contains_key(c) ==> (#[trigger] start[c]).len() > 0 && recompressed(
                codec.format,
                start[c],
            ) is Ok,
{
    let job = recompression(codec, start, keys);
    lemma_after_is_settled(job, keys.len());
    assert(keys.take(keys.len() as int) =~= keys);
    assert forall|c: BlockCoordinate| start.contains_key(c) implies (#[trigger] start[c]).len() > 0
        && recompressed(codec.format, start[c]) is Ok by {
        assert(keys.to_set().contains(c));
        let i = choose|i: int| 0 <= i < keys.len() && keys[i] == c;
        lemma_verdict_from_start(job, i as nat);
        assert(!(job.verdict_at(i as nat) is Abort));
    }
    assert(settled(job, start.dom()) =~= recompressed_content(codec.format, start));
}

/// What is lost when a run stops is less than one batch: the blocks gone
/// through since the last commit are fewer than the capacity of a batch.
pub proof fn law_bounded_loss(cadence: Cadence, config: BatchConfig)
    requires
        cadence.valid(config),
    ensures
        cadence.pending < config.capacity(),
        cadence.committed() + cadence.pending == cadence.done,
        cadence.points.len() > 0 ==> cadence.points.last() == cadence.committed(),
        cadence.points.len() == 0 ==> cadence.committed() == 0,
        forall|i: int| 0 <= i < cadence.points.len() ==> 0 < #[trigger] cadence.points[i]
            <= cadence.done,
        forall|i: int|
            0 < i < cadence.points.len() ==> 0 < #[trigger] cadence.points[i] - cadence.points[i
                - 1] <= config.capacity(),
        cadence.points.len() > 0 ==> cadence.points[0] <= config.capacity(),
{
    reveal(Cadence::valid);
}

/// A run that is stopped right after a batch was committed loses nothing:
/// what is durable in the destination is what the batches so far wrote, no
/// more and no less, it is what a reader sees, and no transaction is left
/// open.
pub proof fn law_cancel_after_commit<T: BlockTransform>(
    job: Job<T>,
    config: BatchConfig,
    before: StoreView,
    after: StoreView,
    polls: Seq<bool>,
    readings: Seq<u64>,
    report: RunReport,
)
    requires
        run_result(job, config, before, after, polls, readings, report),
        !(report.outcome is Completed),
        report.commit_points@.len() > 0,
        report.commit_points@.last() == report.processed,
    ensures
        after.durable == job.after(report.processed as nat),
        after.durable == after.current,
        !after.in_transaction,
{
}

/// However a run ends, the destination is left released: no transaction is
/// open, and a reader sees what is durable.
pub proof fn law_destination_released<T: BlockTransform>(
    job: Job<T>,
    config: BatchConfig,
    before: StoreView,
    after: StoreView,
    polls: Seq<bool>,
    readings: Seq<u64>,
    report: RunReport,
)
    requires
        run_result(job, config, before, after, polls, readings, report),
    ensures
        !after.in_transaction,
        after.current == after.durable,
        after == after.after_release(),
{
}

/// However a run ends, what is durable in the destination is what the run
/// had written when it last committed; where it never did, what was durable
/// before.
pub proof fn law_durable_is_last_commit<T: BlockTransform>(
    job: Job<T>,
    config: BatchConfig,
    before: StoreView,
    after: StoreView,
    polls: Seq<bool>,
    readings: Seq<u64>,
    report: RunReport,
)
    requires
        run_result(job, config, before, after, polls, readings, report),
    ensures
        report.spec_committed() <= report.processed,
        report.processed - report.spec_committed() < config.capacity(),
        report.commit_points@.len() > 0 || report.outcome is Completed ==> after.durable
            == job.after(report.spec_committed() as nat),
        report.commit_points@.len() == 0 && !(report.outcome is Completed) ==> after.durable
            == before.durable,
{
    law_bounded_loss(cadence_after(config, readings, report.processed as nat), config);
}

/// Every block gone through was either written or passed over: as long as
/// none stopped the run, the two counts add up to the blocks gone through.
pub proof fn law_written_or_skipped<T: BlockTransform>(job: Job<T>, n: nat)
    requires
        job.clear_until(n),
    ensures
        job.written(n) + job.skipped(n).len() == n,
    decreases n,
{
    if n > 0 {
        let m = (n - 1) as nat;
        assert(job.clear_until(m)) by {
            assert forall|j: nat| j < m implies !(#[trigger] job.verdict_at(j) is Abort) by {}
        }
        law_written_or_skipped(job, m);
        assert(!(job.verdict_at(m) is Abort));
    }
}

/// While less than the interval goes by on the clock, batches are committed
/// by their size alone: the commit points are the multiples of the
/// threshold, and what is pending is what is left over.
pub proof fn law_commits_at_multiples_of_threshold(
    config: BatchConfig,
    readings: Seq<u64>,
    n: nat,
)
    requires
        config.threshold > 0,
        n < readings.len(),
        n <= usize::MAX,
        forall|i: int, j: int|
            0 <= i <= j <= n ==> elapsed_between(readings[i], readings[j]) < config.interval,
    ensures
        cadence_after(config, readings, n).done == n,
        cadence_after(config, readings, n).pending < config.threshold,
        cadence_after(config, readings, n).points.len() * config.threshold + cadence_after(
            config,
            readings,
            n,
        ).pending == n,
        forall|i: int|
            0 <= i < cadence_after(config, readings, n).points.len() ==> #[trigger] cadence_after(
                config,
                readings,
                n,
            ).points[i] == (i + 1) * config.threshold,
        exists|k: int| 0 <= k <= n && cadence_after(config, readings, n).last_commit == readings[k],
    decreases n,
{
    let now = cadence_after(config, readings, n);
    if n == 0 {
        assert(now.points.len() * config.threshold == 0) by (nonlinear_arith)
            requires
                now.points.len() == 0,
        ;
        assert(now.last_commit == readings[0]);
    } else {
        let m = (n - 1) as nat;
        law_commits_at_multiples_of_threshold(config, readings, m);
        let before = cadence_after(config, readings, m);
        let k = choose|k: int| 0 <= k <= m && before.last_commit == readings[k];
        assert(elapsed_between(readings[k], readings[n as int]) < config.interval);
        let count = before.points.len();
        let t = config.threshold as int;
        if before.ends_batch(config, readings[n as int]) {
            assert(before.pending + 1 == t);
            assert((count + 1) * t == count * t + t) by (nonlinear_arith);
            assert(now.points == before.points.push(n as usize));
            assert forall|i: int| 0 <= i < now.points.len() implies #[trigger] now.points[i] == (i
                + 1) * t by {
                if i < count {
                    assert(now.points[i] == before.points[i]);
                }
            }
            assert(now.last_commit == readings[n as int]);
        } else {
            assert(now.points == before.points);
            assert(now.last_commit == readings[k]);
        }
    }
}

/// A run that is never told to stop is not cancelled: it completes, or a
/// block stops it.
pub proof fn law_not_cancelled_unless_told<T: BlockTransform>(
    job: Job<T>,
    config: BatchConfig,
    before: StoreView,
    after: StoreView,
    polls: Seq<bool>,
    readings: Seq<u64>,
    report: RunReport,
)
    requires
        run_result(job, config, before, after, polls, readings, report),
        forall|i: int| 0 <= i < polls.len() ==> !polls[i],
    ensures
        !(report.outcome is Cancelled),
{
    if report.outcome is Cancelled {
        assert(polls[report.processed as int]);
    }
}

/// A migration that is never told to stop completes: success is owed
/// whatever the source holds, since a block without payload is passed over.
pub proof fn law_migration_completes_unless_told(
    source: Content,
    start: Content,
    keys: Seq<BlockCoordinate>,
    config: BatchConfig,
    before: StoreView,
    after: StoreView,
    polls: Seq<bool>,
    readings: Seq<u64>,
    report: RunReport,
)
    requires
        run_result(migration(source, start, keys), config, before, after, polls, readings, report),
        forall|i: int| 0 <= i < polls.len() ==> !polls[i],
    ensures
        report.outcome is Completed,
{
    law_not_cancelled_unless_told(
        migration(source, start, keys),
        config,
        before,
        after,
        polls,
        readings,
        report,
    );
}

} // verus!
