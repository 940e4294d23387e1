use vstd::prelude::*;
use vstd::bytes::{
    lemma_auto_spec_u32_to_from_le_bytes, spec_u32_from_le_bytes, spec_u32_to_le_bytes,
    u32_from_le_bytes, u32_to_le_bytes,
};
use crate::codec::BlockFormat;
use crate::record::copy_bytes;

verus! {

/// The timestamp of a block that was never stamped.
pub const TIMESTAMP_UNDEFINED: u32 = 0xffff_ffff;

/// The version that holds the node data alone.
pub const LEGACY_VERSION: u8 = 1;

/// The version that holds a timestamp before the node data.
pub const STAMPED_VERSION: u8 = 2;

/// A block with the time at which it was last changed.
#[derive(Debug)]
pub struct StampedBlock {
    pub timestamp: u32,
    pub nodes: Vec<u8>,
}

/// What a stamped block holds.
pub struct StampedContent {
    pub timestamp: u32,
    pub nodes: Seq<u8>,
}

impl View for StampedBlock {
    type V = StampedContent;

    open spec fn view(&self) -> StampedContent {
        StampedContent { timestamp: self.timestamp, nodes: self.nodes@ }
    }
}

/// A format of two versions. The older holds the node data alone, and a
/// block read from it has no timestamp. The newer, which is the one written,
/// holds the timestamp in four bytes, lowest first, and then the node data.
#[derive(Clone, Copy, Debug, PartialEq, Eq, Structural)]
pub struct StampedFormat;

impl BlockFormat for StampedFormat {
    type Block = StampedBlock;

    open spec fn spec_write_version(&self) -> u8 {
        STAMPED_VERSION
    }

    open spec fn spec_reads(&self, version: u8) -> bool {
        version == LEGACY_VERSION || version == STAMPED_VERSION
    }

    open spec fn parse(&self, version: u8, body: Seq<u8>) -> Option<StampedContent> {
        if version == LEGACY_VERSION {
            Some(StampedContent { timestamp: TIMESTAMP_UNDEFINED, nodes: body })
        } else if version == STAMPED_VERSION && body.len() >= 4 {
            Some(
                StampedContent {
                    timestamp: spec_u32_from_le_bytes(body.take(4)),
                    nodes: body.skip(4),
                },
            )
        } else {
            None
        }
    }

    open spec fn render(&self, block: StampedContent) -> Seq<u8> {
        spec_u32_to_le_bytes(block.timestamp) + block.nodes
    }

    proof fn lemma_round_trip(&self, block: StampedContent) {
        lemma_auto_spec_u32_to_from_le_bytes();
        let head = spec_u32_to_le_bytes(block.timestamp);
        let body = self.render(block);
        assert(head.len() == 4);
        assert(body.take(4) =~= head);
        assert(body.skip(4) =~= block.nodes);
    }

    fn write_version(&self) -> (v: u8) {
        STAMPED_VERSION
    }

    fn reads(&self, version: u8) -> (b: bool) {
        version == LEGACY_VERSION || version == STAMPED_VERSION
    }

    fn decode_body(&self, version: u8, body: &[u8]) -> (block: Option<StampedBlock>) {
        if version == LEGACY_VERSION {
            Some(StampedBlock { timestamp: TIMESTAMP_UNDEFINED, nodes: copy_bytes(body) })
        } else if body.len() >= 4 {
            let head = vstd::slice::slice_subrange(body, 0, 4);
            let rest = vstd::slice::slice_subrange(body, 4, body.len());
            proof {
                assert(head@ =~= body@.take(4));
                assert(rest@ =~= body@.skip(4));
            }
            Some(StampedBlock { timestamp: u32_from_le_bytes(head), nodes: copy_bytes(rest) })
        } else {
            None
        }
    }

    fn encode_body(&self, block: &StampedBlock) -> (body: Vec<u8>) {
        let mut body = u32_to_le_bytes(block.timestamp);
        let mut nodes = copy_bytes(block.nodes.as_slice());
        body.append(&mut nodes);
        body
    }
}

} // verus!
