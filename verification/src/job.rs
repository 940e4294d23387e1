use vstd::prelude::*;
use crate::backend::{payload_at, Content};
use crate::codec::{recompressed, BlockCodec, BlockFormat};
use crate::coord::BlockCoordinate;
use crate::transform::{verdict, BlockTransform, FailurePolicy, Identity, Verdict};

verus! {

/// What a run is asked to do, as far as its result depends on it.
pub struct Job<T> {
    pub transform: T,
    pub policy: FailurePolicy,
    /// The content that blocks are read from. Where there is none, the run
    /// works in place: it reads each block from the destination as it then is.
    pub source: Option<Content>,
    /// What the destination holds when the run begins.
    pub start: Content,
    /// The coordinates to go through, in this order.
    pub keys: Seq<BlockCoordinate>,
}

/// The content after `v` was carried out on the block at `coord`.
pub open spec fn apply_verdict(content: Content, coord: BlockCoordinate, v: Verdict) -> Content {
    match v {
        Verdict::Write(payload) => content.insert(coord, payload),
        _ => content,
    }
}

impl<T: BlockTransform> Job<T> {
    /// The content that a block is read from when the destination holds `dest`.
    pub open spec fn reads_from(self, dest: Content) -> Content {
        match self.source {
            Some(content) => content,
            None => dest,
        }
    }

    /// The verdict on the block at `coord` when the destination holds `dest`.
    pub open spec fn verdict_in(self, dest: Content, coord: BlockCoordinate) -> Verdict {
        verdict(self.transform, self.policy, coord, payload_at(self.reads_from(dest), coord))
    }

    /// What the destination holds after the first `n` blocks were gone
    /// through, none of which stopped the run.
    pub open spec fn after(self, n: nat) -> Content
        decreases n,
    {
        if n == 0 {
            self.start
        } else {
            let before = self.after((n - 1) as nat);
            let coord = self.keys[n - 1];
            apply_verdict(before, coord, self.verdict_in(before, coord))
        }
    }

    /// The verdict on the block with index `i`.
    pub open spec fn verdict_at(self, i: nat) -> Verdict {
        self.verdict_in(self.after(i), self.keys[i as int])
    }

    /// How many of the first `n` blocks were written.
    pub open spec fn written(self, n: nat) -> nat
        decreases n,
    {
        if n == 0 {
            0
        } else if self.verdict_at((n - 1) as nat) is Write {
            self.written((n - 1) as nat) + 1
        } else {
            self.written((n - 1) as nat)
        }
    }

    /// The coordinates among the first `n` whose blocks were passed over.
    pub open spec fn skipped(self, n: nat) -> Seq<BlockCoordinate>
        decreases n,
    {
        if n == 0 {
            Seq::empty()
        } else if self.verdict_at((n - 1) as nat) is Skip {
            self.skipped((n - 1) as nat).push(self.keys[n - 1])
        } else {
            self.skipped((n - 1) as nat)
        }
    }

    /// None of the first `n` blocks stops the run.
    pub open spec fn clear_until(self, n: nat) -> bool {
        forall|j: nat| j < n ==> !(#[trigger] self.verdict_at(j) is Abort)
    }
}

/// The first `n` coordinates of `keys`, as a set.
pub open spec fn first_keys(keys: Seq<BlockCoordinate>, n: nat) -> Set<BlockCoordinate> {
    keys.take(n as int).to_set()
}

/// What the destination of `job` holds once the blocks at the coordinates
/// `done` were gone through, in whatever order: under each of them that was
/// written, what was written; everywhere else, what was there at the start.
pub open spec fn settled<T: BlockTransform>(job: Job<T>, done: Set<BlockCoordinate>) -> Content {
    Map::new(
        |c: BlockCoordinate|
            job.start.contains_key(c) || (done.contains(c) && job.verdict_in(
                job.start,
                c,
            ) is Write),
        |c: BlockCoordinate|
            if done.contains(c) && job.verdict_in(job.start, c) is Write {
                job.verdict_in(job.start, c)->Write_0
            } else {
                job.start[c]
            },
    )
}

/// The blocks of `content` that yield a payload.
pub open spec fn loadable(content: Content) -> Content {
    content.restrict(Set::new(|c: BlockCoordinate| content[c].len() > 0))
}

/// A migration of the blocks in `source` into a destination that holds
/// `start`, taking the coordinates in the order `keys`.
pub open spec fn migration(source: Content, start: Content, keys: Seq<BlockCoordinate>) -> Job<
    Identity,
> {
    Job { transform: Identity, policy: FailurePolicy::Skip, source: Some(source), start, keys }
}

/// A recompression of the blocks of a store that holds `start`, in place,
/// taking the coordinates in the order `keys`.
pub open spec fn recompression<F: BlockFormat>(
    codec: BlockCodec<F>,
    start: Content,
    keys: Seq<BlockCoordinate>,
) -> Job<BlockCodec<F>> {
    Job { transform: codec, policy: FailurePolicy::Abort, source: None, start, keys }
}

/// `content` with every payload decoded and written anew by `format`.
pub open spec fn recompressed_content<F: BlockFormat>(format: F, content: Content) -> Content {
    Map::new(
        |c: BlockCoordinate| content.contains_key(c),
        |c: BlockCoordinate| recompressed(format, content[c])->Ok_0,
    )
}

} // verus!
