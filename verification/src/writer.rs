use vstd::prelude::*;
use crate::backend::StorageBackend;
use crate::coord::BlockCoordinate;
use crate::record::BlockRecord;

verus! {

/// Blocks in a batch, unless told otherwise.
pub const DEFAULT_COMMIT_THRESHOLD: usize = 255;

/// Seconds after which a batch is committed whatever its size, unless told
/// otherwise.
pub const DEFAULT_COMMIT_INTERVAL: u64 = 1;

/// When a batch is committed.
#[derive(Clone, Copy, Debug, PartialEq, Eq, Structural)]
pub struct BatchConfig {
    /// A batch is committed once it holds this many blocks.
    pub threshold: usize,
    /// A batch is committed once this many seconds have gone by since the
    /// commit before it.
    pub interval: u64,
}

impl BatchConfig {
    /// Batches of `threshold` blocks, committed after `interval` seconds at the latest.
    pub fn new(threshold: usize, interval: u64) -> (c: Self)
        ensures
            c.threshold == threshold,
            c.interval == interval,
    {
        BatchConfig { threshold, interval }
    }

    /// The most blocks that an open batch can hold: a batch of one is
    /// committed even where the threshold is zero.
    pub open spec fn capacity(self) -> int {
        if self.threshold == 0 {
            1
        } else {
            self.threshold as int
        }
    }
}

impl Default for BatchConfig {
    fn default() -> (c: Self)
        ensures
            c.threshold == DEFAULT_COMMIT_THRESHOLD,
            c.interval == DEFAULT_COMMIT_INTERVAL,
    {
        BatchConfig { threshold: DEFAULT_COMMIT_THRESHOLD, interval: DEFAULT_COMMIT_INTERVAL }
    }
}

/// Seconds from `last` to `now`; none where the clock went back.
pub open spec fn elapsed_between(last: u64, now: u64) -> int {
    if now >= last {
        now - last
    } else {
        0
    }
}

/// The batching rule: a batch of `pending` blocks is committed when it has
/// reached the threshold or when the interval has gone by, whichever comes
/// first.
pub open spec fn commit_due(config: BatchConfig, pending: int, elapsed: int) -> bool {
    pending >= config.threshold || elapsed >= config.interval
}

/// Where the batching stands.
pub struct Cadence {
    /// Blocks gone through in all.
    pub done: nat,
    /// Blocks gone through since the last commit.
    pub pending: nat,
    /// Time of the last commit, or of the begin where none was made yet.
    pub last_commit: u64,
    /// The counts of blocks gone through at which a batch was committed.
    pub points: Seq<usize>,
}

impl Cadence {
    /// The batching as it stands when the first transaction is opened at `now`.
    pub open spec fn start(now: u64) -> Cadence {
        Cadence { done: 0, pending: 0, last_commit: now, points: Seq::empty() }
    }

    /// Whether the block that is gone through at `now` ends its batch.
    pub open spec fn ends_batch(self, config: BatchConfig, now: u64) -> bool {
        commit_due(config, (self.pending + 1) as int, elapsed_between(self.last_commit, now))
    }

    /// The batching after one more block was gone through at `now`.
    pub open spec fn step(self, config: BatchConfig, now: u64) -> Cadence {
        if self.ends_batch(config, now) {
            Cadence {
                done: self.done + 1,
                pending: 0,
                last_commit: now,
                points: self.points.push((self.done + 1) as usize),
            }
        } else {
            Cadence {
                done: self.done + 1,
                pending: self.pending + 1,
                last_commit: self.last_commit,
                points: self.points,
            }
        }
    }

    /// Count of blocks at the last commit; none where no batch was committed.
    pub open spec fn committed(self) -> int {
        self.done - self.pending
    }

    /// No open batch outgrows the capacity, and the commit points rise, each
    /// by no more than the capacity.
    #[verifier::opaque]
    pub open spec fn valid(self, config: BatchConfig) -> bool {
        &&& self.pending <= self.done
        &&& self.pending < config.capacity()
        &&& self.points.len() > 0 ==> self.points.last() == self.done - self.pending
        &&& self.points.len() == 0 ==> self.pending == self.done
        &&& forall|i: int| 0 <= i < self.points.len() ==> 0 < #[trigger] self.points[i] <= self.done
        &&& forall|i: int, j: int|
            0 <= i < j < self.points.len() ==> 0 < self.points[j] - self.points[i]
        &&& forall|i: int|
            0 < i < self.points.len() ==> #[trigger] self.points[i] - self.points[i - 1]
                <= config.capacity()
        &&& self.points.len() > 0 ==> self.points[0] <= config.capacity()
    }
}

/// The batching after the blocks were gone through at the times `readings`,
/// the first of which is the time of the begin.
pub open spec fn cadence_after(config: BatchConfig, readings: Seq<u64>, blocks: nat) -> Cadence
    decreases blocks,
{
    if blocks == 0 {
        Cadence::start(readings[0])
    } else {
        cadence_after(config, readings, (blocks - 1) as nat).step(config, readings[blocks as int])
    }
}

/// A step keeps the batching valid: no open batch outgrows the capacity, and
/// the commit points rise by no more than the capacity.
pub proof fn lemma_step_valid(c: Cadence, config: BatchConfig, now: u64)
    requires
        c.valid(config),
        c.done < usize::MAX,
    ensures
        c.step(config, now).valid(config),
{
    reveal(Cadence::valid);
    let n = c.step(config, now);
    if c.ends_batch(config, now) {
        assert forall|i: int| 0 <= i < n.points.len() implies 0 < #[trigger] n.points[i]
            <= n.done by {
            if i < c.points.len() {
                assert(n.points[i] == c.points[i]);
            }
        }
        assert forall|i: int, j: int| 0 <= i < j < n.points.len() implies 0 < n.points[j]
            - n.points[i] by {
            if j < c.points.len() {
                assert(n.points[j] == c.points[j]);
                assert(n.points[i] == c.points[i]);
            } else {
                assert(n.points[i] == c.points[i]);
            }
        }
        assert forall|i: int| 0 < i < n.points.len() implies #[trigger] n.points[i] - n.points[i
            - 1] <= config.capacity() by {
            if i < c.points.len() {
                assert(n.points[i] == c.points[i]);
                assert(n.points[i - 1] == c.points[i - 1]);
            } else {
                assert(n.points[i - 1] == c.points.last());
            }
        }
        if c.points.len() > 0 {
            assert(n.points[0] == c.points[0]);
        }
    }
}

/// Batches the writes to a destination: the transaction stays open over many
/// blocks and is committed, and a new one opened, by the batching rule.
pub struct TransactionalWriter {
    pub config: BatchConfig,
    pub done: usize,
    pub pending: usize,
    pub last_commit: u64,
    pub points: Vec<usize>,
}

impl View for TransactionalWriter {
    type V = Cadence;

    open spec fn view(&self) -> Cadence {
        Cadence {
            done: self.done as nat,
            pending: self.pending as nat,
            last_commit: self.last_commit,
            points: self.points@,
        }
    }
}

impl TransactionalWriter {
    /// Opens the first transaction on `dest`, at the time `now`.
    pub fn begin<D: StorageBackend>(config: BatchConfig, dest: &mut D, now: u64) -> (w: Self)
        requires
            old(dest).wf(),
        ensures
            final(dest).wf(),
            final(dest)@ == old(dest)@.after_begin(),
            w.config == config,
            w@ == Cadence::start(now),
            w@.valid(config),
    {
        dest.begin_transaction();
        proof {
            reveal(Cadence::valid);
        }
        TransactionalWriter { config, done: 0, pending: 0, last_commit: now, points: Vec::new() }
    }

    /// Whether a batch of `pending` blocks is committed after `elapsed` seconds.
    pub fn is_due(config: BatchConfig, pending: usize, elapsed: u64) -> (due: bool)
        ensures
            due == commit_due(config, pending as int, elapsed as int),
    {
        pending >= config.threshold || elapsed >= config.interval
    }

    /// Stages a write of `record` under `coord`.
    pub fn save<D: StorageBackend>(
        &self,
        dest: &mut D,
        coord: BlockCoordinate,
        record: &BlockRecord,
    )
        requires
            old(dest).wf(),
        ensures
            final(dest).wf(),
            final(dest)@ == old(dest)@.after_save(coord, record@),
    {
        dest.save(coord, record);
    }

    /// Counts one block as gone through at the time `now`. Where that ends
    /// the batch, commits it and opens the next transaction at once.
    pub fn block_done<D: StorageBackend>(&mut self, dest: &mut D, now: u64) -> (committed: bool)
        requires
            old(dest).wf(),
            old(self)@.valid(old(self).config),
            old(self).done < usize::MAX,
        ensures
            final(dest).wf(),
            final(self).config == old(self).config,
            final(self)@ == old(self)@.step(old(self).config, now),
            final(self)@.valid(old(self).config),
            committed == old(self)@.ends_batch(old(self).config, now),
            final(dest)@ == if committed {
                old(dest)@.after_end().after_begin()
            } else {
                old(dest)@
            },
    {
        proof {
            lemma_step_valid(self@, self.config, now);
            assert(self.pending <= self.done) by {
                reveal(Cadence::valid);
            }
        }
        let elapsed: u64 = if now >= self.last_commit {
            now - self.last_commit
        } else {
            0
        };
        self.done = self.done + 1;
        if Self::is_due(self.config, self.pending + 1, elapsed) {
            dest.end_transaction();
            dest.begin_transaction();
            self.pending = 0;
            self.last_commit = now;
            self.points.push(self.done);
            true
        } else {
            self.pending = self.pending + 1;
            false
        }
    }

    /// Commits what is open and opens nothing more: the run has ended.
    pub fn finish<D: StorageBackend>(self, dest: &mut D) -> (points: Vec<usize>)
        requires
            old(dest).wf(),
        ensures
            final(dest).wf(),
            final(dest)@ == old(dest)@.after_end(),
            points@ == self@.points,
    {
        dest.end_transaction();
        self.points
    }

    /// Gives up what is open and opens nothing more: the run was stopped.
    /// What the batches committed so far wrote stays; what was staged since
    /// is lost.
    pub fn abandon<D: StorageBackend>(self, dest: &mut D) -> (points: Vec<usize>)
        requires
            old(dest).wf(),
        ensures
            final(dest).wf(),
            final(dest)@ == old(dest)@.after_release(),
            points@ == self@.points,
    {
        dest.release();
        self.points
    }
}

} // verus!
