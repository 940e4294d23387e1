use vstd::prelude::*;
use crate::codec::BlockFormat;
use crate::record::copy_bytes;

verus! {

/// A block whose content is kept as the bytes it was stored with.
#[derive(Debug)]
pub struct RawBlock {
    pub content: Vec<u8>,
}

impl View for RawBlock {
    type V = Seq<u8>;

    open spec fn view(&self) -> Seq<u8> {
        self.content@
    }
}

/// The format of stores that keep blocks uncompressed: in every version the
/// body is the block's content as it stands, so that versions differ in the
/// tag alone. It reads every version up to the one it writes.
#[derive(Clone, Copy, Debug, PartialEq, Eq, Structural)]
pub struct RawFormat {
    pub highest: u8,
}

impl RawFormat {
    /// The format that writes the version `highest`.
    pub fn new(highest: u8) -> (f: Self)
        ensures
            f.highest == highest,
    {
        RawFormat { highest }
    }
}

impl BlockFormat for RawFormat {
    type Block = RawBlock;

    open spec fn spec_write_version(&self) -> u8 {
        self.highest
    }

    open spec fn spec_reads(&self, version: u8) -> bool {
        version <= self.highest
    }

    open spec fn parse(&self, version: u8, body: Seq<u8>) -> Option<Seq<u8>> {
        Some(body)
    }

    open spec fn render(&self, block: Seq<u8>) -> Seq<u8> {
        block
    }

    proof fn lemma_round_trip(&self, block: Seq<u8>) {
    }

    fn write_version(&self) -> (v: u8) {
        self.highest
    }

    fn reads(&self, version: u8) -> (b: bool) {
        version <= self.highest
    }

    fn decode_body(&self, version: u8, body: &[u8]) -> (block: Option<RawBlock>) {
        Some(RawBlock { content: copy_bytes(body) })
    }

    fn encode_body(&self, block: &RawBlock) -> (body: Vec<u8>) {
        copy_bytes(block.content.as_slice())
    }
}

} // verus!
