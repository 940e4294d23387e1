use vstd::prelude::*;
use crate::coord::BlockCoordinate;

verus! {

/// One progress line: so many blocks gone through, of so many in all.
#[derive(Clone, Copy, Debug, PartialEq, Eq, Structural)]
pub struct Progress {
    pub done: usize,
    pub total: usize,
}

/// Where a driver tells of the run as it goes: a progress line at each
/// intermediate commit, a warning for each block it passes over, and the end
/// of the run.
///
/// The three histories record what a reporter was told since it was made. A
/// driver's contract states what it adds to each.
pub trait ProgressReporter {
    spec fn lines(&self) -> Seq<Progress>;

    spec fn warnings(&self) -> Seq<BlockCoordinate>;

    /// The runs that were reported as ended, each with its last count.
    spec fn endings(&self) -> Seq<Progress>;

    /// A batch was committed after `done` of `total` blocks.
    fn progress(&mut self, done: usize, total: usize)
        ensures
            final(self).lines() == old(self).lines().push(Progress { done, total }),
            final(self).warnings() == old(self).warnings(),
            final(self).endings() == old(self).endings(),
    ;

    /// The block at `coord` yielded no payload and was passed over.
    fn block_skipped(&mut self, coord: BlockCoordinate)
        ensures
            final(self).lines() == old(self).lines(),
            final(self).warnings() == old(self).warnings().push(coord),
            final(self).endings() == old(self).endings(),
    ;

    /// The loop has come to its end, however it ended, after `done` of
    /// `total` blocks.
    fn finish(&mut self, done: usize, total: usize)
        ensures
            final(self).lines() == old(self).lines(),
            final(self).warnings() == old(self).warnings(),
            final(self).endings() == old(self).endings().push(Progress { done, total }),
    ;
}

/// A reporter that keeps what it is told, for a caller to read afterwards.
pub struct RecordingReporter {
    pub progress_lines: Vec<Progress>,
    pub skipped: Vec<BlockCoordinate>,
    pub finished: Vec<Progress>,
}

impl RecordingReporter {
    /// A reporter that was told nothing yet.
    pub fn new() -> (r: Self)
        ensures
            r.lines() == Seq::<Progress>::empty(),
            r.warnings() == Seq::<BlockCoordinate>::empty(),
            r.endings() == Seq::<Progress>::empty(),
    {
        RecordingReporter { progress_lines: Vec::new(), skipped: Vec::new(), finished: Vec::new() }
    }

    /// How many runs were reported as ended.
    pub fn finish_count(&self) -> (n: usize)
        ensures
            n == self.endings().len(),
    {
        self.finished.len()
    }
}

impl ProgressReporter for RecordingReporter {
    open spec fn lines(&self) -> Seq<Progress> {
        self.progress_lines@
    }

    open spec fn warnings(&self) -> Seq<BlockCoordinate> {
        self.skipped@
    }

    open spec fn endings(&self) -> Seq<Progress> {
        self.finished@
    }

    fn progress(&mut self, done: usize, total: usize) {
        self.progress_lines.push(Progress { done, total });
    }

    fn block_skipped(&mut self, coord: BlockCoordinate) {
        self.skipped.push(coord);
    }

    fn finish(&mut self, done: usize, total: usize) {
        self.finished.push(Progress { done, total });
    }
}

/// Where progress goes to in the end: a console, a log. Nothing is asked of
/// an implementation but that it return.
pub trait ProgressSink {
    fn progress(&mut self, done: usize, total: usize);

    fn block_skipped(&mut self, coord: BlockCoordinate);

    fn finish(&mut self, done: usize, total: usize);
}

/// A reporter that hands on to a sink what it is told, and remembers it.
pub struct SinkReporter<S: ProgressSink> {
    pub sink: S,
    pub told_lines: Ghost<Seq<Progress>>,
    pub told_warnings: Ghost<Seq<BlockCoordinate>>,
    pub told_endings: Ghost<Seq<Progress>>,
}

impl<S: ProgressSink> SinkReporter<S> {
    /// A reporter in front of `sink` that was told nothing yet.
    pub fn new(sink: S) -> (r: Self)
        ensures
            r.sink == sink,
            r.lines() == Seq::<Progress>::empty(),
            r.warnings() == Seq::<BlockCoordinate>::empty(),
            r.endings() == Seq::<Progress>::empty(),
    {
        SinkReporter {
            sink,
            told_lines: Ghost(Seq::empty()),
            told_warnings: Ghost(Seq::empty()),
            told_endings: Ghost(Seq::empty()),
        }
    }

    /// Gives the sink back.
    pub fn into_sink(self) -> (sink: S)
        ensures
            sink == self.sink,
    {
        self.sink
    }
}

impl<S: ProgressSink> ProgressReporter for SinkReporter<S> {
    open spec fn lines(&self) -> Seq<Progress> {
        self.told_lines@
    }

    open spec fn warnings(&self) -> Seq<BlockCoordinate> {
        self.told_warnings@
    }

    open spec fn endings(&self) -> Seq<Progress> {
        self.told_endings@
    }

    fn progress(&mut self, done: usize, total: usize) {
        self.sink.progress(done, total);
        proof {
            self.told_lines@ = self.told_lines@.push(Progress { done, total });
        }
    }

    fn block_skipped(&mut self, coord: BlockCoordinate) {
        self.sink.block_skipped(coord);
        proof {
            self.told_warnings@ = self.told_warnings@.push(coord);
        }
    }

    fn finish(&mut self, done: usize, total: usize) {
        self.sink.finish(done, total);
        proof {
            self.told_endings@ = self.told_endings@.push(Progress { done, total });
        }
    }
}

} // verus!
