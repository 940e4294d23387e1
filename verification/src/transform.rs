use vstd::prelude::*;
use crate::codec::{recompressed, BlockCodec, BlockFormat};
use crate::coord::BlockCoordinate;
use crate::error::{DecodeError, MigrationError};
use crate::record::BlockRecord;

verus! {

/// What a driver does to the payload of each block before it writes it.
pub trait BlockTransform {
    /// The payload written in place of `payload`, or why none can be.
    spec fn output(&self, payload: Seq<u8>) -> Result<Seq<u8>, DecodeError>;

    fn apply(&self, record: &BlockRecord) -> (out: Result<BlockRecord, DecodeError>)
        ensures
            match out {
                Ok(r) => self.output(record@) == Ok::<_, DecodeError>(r@),
                Err(e) => self.output(record@) == Err::<Seq<u8>, _>(e),
            },
    ;
}

/// The transform of a migration: every payload is written as it was read.
#[derive(Clone, Copy, Debug, PartialEq, Eq, Structural)]
pub struct Identity;

impl BlockTransform for Identity {
    open spec fn output(&self, payload: Seq<u8>) -> Result<Seq<u8>, DecodeError> {
        Ok(payload)
    }

    fn apply(&self, record: &BlockRecord) -> (out: Result<BlockRecord, DecodeError>) {
        Ok(record.duplicate())
    }
}

/// The transform of a recompression: every payload is decoded and written
/// anew at the codec's write version.
impl<F: BlockFormat> BlockTransform for BlockCodec<F> {
    open spec fn output(&self, payload: Seq<u8>) -> Result<Seq<u8>, DecodeError> {
        recompressed(self.format, payload)
    }

    fn apply(&self, record: &BlockRecord) -> (out: Result<BlockRecord, DecodeError>) {
        self.recompress(record)
    }
}

/// What a driver does where a store yields no payload for a coordinate that
/// it lists.
#[derive(Clone, Copy, Debug, PartialEq, Eq, Structural)]
pub enum FailurePolicy {
    /// Warn, pass the block over and go on.
    Skip,
    /// Stop the run.
    Abort,
}

/// What becomes of one block.
pub enum Verdict {
    /// This payload is written under the block's coordinate.
    Write(Seq<u8>),
    /// The block is passed over with a warning.
    Skip,
    /// The run stops with this error.
    Abort(MigrationError),
}

/// The verdict on the block at `coord`, read as `payload`. A missing payload
/// falls under the policy. A payload that cannot be decoded always stops the
/// run.
pub open spec fn verdict<T: BlockTransform>(
    transform: T,
    policy: FailurePolicy,
    coord: BlockCoordinate,
    payload: Seq<u8>,
) -> Verdict {
    if payload.len() == 0 {
        match policy {
            FailurePolicy::Skip => Verdict::Skip,
            FailurePolicy::Abort => Verdict::Abort(MigrationError::BlockLoad(coord)),
        }
    } else {
        match transform.output(payload) {
            Ok(out) => Verdict::Write(out),
            Err(e) => Verdict::Abort(MigrationError::BlockDecode(coord, e)),
        }
    }
}

/// A verdict with the record to write in hand.
pub enum BlockAction {
    Write(BlockRecord),
    Skip,
    Abort(MigrationError),
}

impl View for BlockAction {
    type V = Verdict;

    open spec fn view(&self) -> Verdict {
        match self {
            BlockAction::Write(r) => Verdict::Write(r@),
            BlockAction::Skip => Verdict::Skip,
            BlockAction::Abort(e) => Verdict::Abort(*e),
        }
    }
}

/// Decides what becomes of the block at `coord`, read as `record`.
pub fn judge<T: BlockTransform>(
    transform: &T,
    policy: FailurePolicy,
    coord: BlockCoordinate,
    record: &BlockRecord,
) -> (action: BlockAction)
    ensures
        action@ == verdict(*transform, policy, coord, record@),
{
    if record.is_empty() {
        match policy {
            FailurePolicy::Skip => BlockAction::Skip,
            FailurePolicy::Abort => BlockAction::Abort(MigrationError::BlockLoad(coord)),
        }
    } else {
        match transform.apply(record) {
            Ok(out) => BlockAction::Write(out),
            Err(e) => BlockAction::Abort(MigrationError::BlockDecode(coord, e)),
        }
    }
}

} // verus!
