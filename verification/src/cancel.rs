use vstd::prelude::*;
use std::sync::atomic::AtomicBool;
use std::sync::atomic::Ordering;

verus! {

/// The flag by which someone outside asks a run to stop.
///
/// Whoever handles the interrupt holds the token and raises it. A driver
/// never writes to it: it watches it through a `TokenWatch`.
pub struct CancellationToken {
    flag: AtomicBool,
}

impl CancellationToken {
    /// A token that has not been raised.
    pub fn new() -> Self {
        CancellationToken { flag: AtomicBool::new(false) }
    }

    /// Raises the token. It stays raised.
    pub fn cancel(&self) {
        self.flag.store(true, Ordering::SeqCst);
    }

    /// Whether the token is raised at this moment. Nothing is promised of the
    /// answer: it is for the one who raises the token to decide.
    pub fn is_cancelled(&self) -> bool {
        self.flag.load(Ordering::SeqCst)
    }
}

/// Where a driver asks whether it is to stop.
///
/// `polls` is the history of the answers given. A driver's contract states
/// how often it asked and what it did on each answer.
pub trait CancelSignal {
    spec fn polls(&self) -> Seq<bool>;

    /// Whether the run is to stop now.
    fn poll(&mut self) -> (raised: bool)
        ensures
            final(self).polls() == old(self).polls().push(raised),
    ;
}

/// `n` answers that the run may go on.
pub open spec fn quiet_polls(n: nat) -> Seq<bool> {
    Seq::new(n, |i: int| false)
}

/// A signal that looks at a token each time it is asked.
pub struct TokenWatch<'a> {
    pub token: &'a CancellationToken,
    pub seen: Ghost<Seq<bool>>,
}

impl<'a> TokenWatch<'a> {
    /// A watch on `token` that was not asked yet.
    pub fn new(token: &'a CancellationToken) -> (watch: Self)
        ensures
            watch.token == token,
            watch.polls() == Seq::<bool>::empty(),
    {
        TokenWatch { token, seen: Ghost(Seq::empty()) }
    }
}

impl<'a> CancelSignal for TokenWatch<'a> {
    open spec fn polls(&self) -> Seq<bool> {
        self.seen@
    }

    fn poll(&mut self) -> (raised: bool) {
        let raised = self.token.is_cancelled();
        proof {
            self.seen@ = self.seen@.push(raised);
        }
        raised
    }
}

/// A signal that is never raised: a run that watches it is not cancelled.
pub struct Never {
    pub asked: Ghost<nat>,
}

impl Never {
    /// A signal that was not asked yet.
    pub fn new() -> (never: Self)
        ensures
            never.polls() == Seq::<bool>::empty(),
    {
        let never = Never { asked: Ghost(0) };
        proof {
            assert(never.polls() =~= Seq::<bool>::empty());
        }
        never
    }
}

impl CancelSignal for Never {
    open spec fn polls(&self) -> Seq<bool> {
        quiet_polls(self.asked@)
    }

    fn poll(&mut self) -> (raised: bool)
        ensures
            !raised,
    {
        proof {
            self.asked@ = self.asked@ + 1;
            assert(quiet_polls(self.asked@) =~= quiet_polls((self.asked@ - 1) as nat).push(false));
        }
        false
    }
}

} // verus!
