use vstd::prelude::*;

verus! {

/// A source of wall-clock time in whole seconds.
///
/// `readings` is the history of what the clock has answered. A driver's
/// contract states its batching over the readings it took.
pub trait Clock {
    spec fn readings(&self) -> Seq<u64>;

    /// The time at this moment. Nothing is promised of it, not even that it
    /// does not go back: the batching rule copes with every reading.
    fn read_seconds(&mut self) -> (t: u64)
        ensures
            final(self).readings() == old(self).readings().push(t),
    ;
}

/// A clock that a caller sets by hand.
pub struct ManualClock {
    pub time: u64,
    pub step: u64,
    pub history: Ghost<Seq<u64>>,
}

impl ManualClock {
    /// A clock that stands at `time` and moves on by `step` seconds after
    /// each reading, until it would pass the largest time there is.
    pub fn new(time: u64, step: u64) -> (c: Self)
        ensures
            c.time == time,
            c.step == step,
            c.readings() == Seq::<u64>::empty(),
    {
        ManualClock { time, step, history: Ghost(Seq::empty()) }
    }

    /// A clock that stands still at `time`.
    pub fn fixed(time: u64) -> (c: Self)
        ensures
            c.time == time,
            c.step == 0,
            c.readings() == Seq::<u64>::empty(),
    {
        ManualClock { time, step: 0, history: Ghost(Seq::empty()) }
    }

    /// Sets the clock to `time`.
    pub fn set(&mut self, time: u64)
        ensures
            final(self).time == time,
            final(self).step == old(self).step,
            final(self).readings() == old(self).readings(),
    {
        self.time = time;
    }

}

impl Clock for ManualClock {
    open spec fn readings(&self) -> Seq<u64> {
        self.history@
    }

    /// Reads the clock and moves it on.
    fn read_seconds(&mut self) -> (t: u64)
        ensures
            t == old(self).time,
            final(self).step == old(self).step,
            final(self).time == if old(self).time + old(self).step <= u64::MAX {
                (old(self).time + old(self).step) as u64
            } else {
                u64::MAX
            },
    {
        let t = self.time;
        self.time = if self.step <= u64::MAX - t {
            t + self.step
        } else {
            u64::MAX
        };
        proof {
            self.history@ = self.history@.push(t);
        }
        t
    }
}

/// `Instant` of std: a moment of the monotonic clock. Nothing inside it is
/// looked at.
#[verifier::external_type_specification]
#[verifier::external_body]
pub struct ExInstant(std::time::Instant);

/// `Instant::now` of std: the present moment of the monotonic clock. Nothing
/// is claimed of it.
pub assume_specification[ std::time::Instant::now ]() -> std::time::Instant;

/// `Instant::saturating_duration_since` of std: the time from `earlier` to
/// `at`, none where `earlier` is the later of the two. Nothing is claimed of
/// it.
pub assume_specification[ std::time::Instant::saturating_duration_since ](
    at: &std::time::Instant,
    earlier: std::time::Instant,
) -> std::time::Duration;

/// `Duration::as_secs` of std: the whole seconds of a span of time. Nothing is
/// claimed of it.
pub assume_specification[ std::time::Duration::as_secs ](d: &std::time::Duration) -> u64;

/// The machine's monotonic clock, read in seconds since the clock was made.
pub struct SystemClock {
    origin: std::time::Instant,
    history: Ghost<Seq<u64>>,
}

impl SystemClock {
    /// A clock whose seconds count from now.
    pub fn new() -> (c: Self)
        ensures
            c.readings() == Seq::<u64>::empty(),
    {
        SystemClock { origin: std::time::Instant::now(), history: Ghost(Seq::empty()) }
    }
}

impl Clock for SystemClock {
    closed spec fn readings(&self) -> Seq<u64> {
        self.history@
    }

    fn read_seconds(&mut self) -> (t: u64) {
        let gone = std::time::Instant::now().saturating_duration_since(self.origin);
        let t = gone.as_secs();
        proof {
            self.history@ = self.history@.push(t);
        }
        t
    }
}

} // verus!
