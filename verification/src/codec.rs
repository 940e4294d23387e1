use vstd::prelude::*;
use crate::error::DecodeError;
use crate::record::{payload_body, payload_version, BlockRecord};

verus! {

/// The serialization versions of a block and how each lays a block out.
///
/// A format reads a range of versions and writes one, the highest it knows.
/// The codec asks of it that a block written at that version reads back as
/// the same block.
pub trait BlockFormat {
    /// In-memory representation of a block.
    type Block: View;

    /// The version at which blocks are written.
    spec fn spec_write_version(&self) -> u8;

    /// Whether blocks of `version` can be read.
    spec fn spec_reads(&self, version: u8) -> bool;

    /// The block that `body` holds at `version`, if it holds one.
    spec fn parse(&self, version: u8, body: Seq<u8>) -> Option<<Self::Block as View>::V>;

    /// The bytes of `block` at the write version, without the tag.
    spec fn render(&self, block: <Self::Block as View>::V) -> Seq<u8>;

    /// What is written can be read, and nothing of it is lost.
    proof fn lemma_round_trip(&self, block: <Self::Block as View>::V)
        ensures
            self.spec_reads(self.spec_write_version()),
            self.parse(self.spec_write_version(), self.render(block)) == Some(block),
    ;

    fn write_version(&self) -> (v: u8)
        ensures
            v == self.spec_write_version(),
    ;

    fn reads(&self, version: u8) -> (b: bool)
        ensures
            b == self.spec_reads(version),
    ;

    fn decode_body(&self, version: u8, body: &[u8]) -> (block: Option<Self::Block>)
        requires
            self.spec_reads(version),
        ensures
            match block {
                Some(b) => self.parse(version, body@) == Some(b@),
                None => self.parse(version, body@) is None,
            },
    ;

    fn encode_body(&self, block: &Self::Block) -> (body: Vec<u8>)
        ensures
            body@ == self.render(block@),
    ;
}

/// Reads a payload by its version tag and writes blocks at the highest
/// version that its format supports.
pub struct BlockCodec<F: BlockFormat> {
    pub format: F,
}

/// The block that `payload` stands for under `format`, or why it stands for none.
pub open spec fn decoded<F: BlockFormat>(format: F, payload: Seq<u8>) -> Result<
    <F::Block as View>::V,
    DecodeError,
> {
    match payload_version(payload) {
        None => Err(DecodeError::Empty),
        Some(version) => if !format.spec_reads(version) {
            Err(DecodeError::UnknownVersion(version))
        } else {
            match format.parse(version, payload_body(payload)) {
                Some(block) => Ok(block),
                None => Err(DecodeError::Corrupt(version)),
            }
        },
    }
}

/// The payload written for `block`: the write version's tag, then the body.
pub open spec fn encoded<F: BlockFormat>(format: F, block: <F::Block as View>::V) -> Seq<u8> {
    seq![format.spec_write_version()] + format.render(block)
}

/// The payload that takes the place of `payload` in a recompression.
pub open spec fn recompressed<F: BlockFormat>(format: F, payload: Seq<u8>) -> Result<
    Seq<u8>,
    DecodeError,
> {
    match decoded(format, payload) {
        Ok(block) => Ok(encoded(format, block)),
        Err(e) => Err(e),
    }
}

impl<F: BlockFormat> BlockCodec<F> {
    /// A codec for the versions of `format`.
    pub fn new(format: F) -> (codec: Self)
        ensures
            codec.format == format,
    {
        BlockCodec { format }
    }

    /// Reads the leading version byte and hands the rest to the decoder of that version.
    pub fn decode(&self, payload: &BlockRecord) -> (block: Result<F::Block, DecodeError>)
        ensures
            match block {
                Ok(b) => decoded(self.format, payload@) == Ok::<_, DecodeError>(b@),
                Err(e) => decoded(self.format, payload@) == Err::<<F::Block as View>::V, _>(e),
            },
    {
        let bytes = payload.as_bytes();
        if bytes.len() == 0 {
            return Err(DecodeError::Empty);
        }
        let version = bytes[0];
        if !self.format.reads(version) {
            return Err(DecodeError::UnknownVersion(version));
        }
        let body = vstd::slice::slice_subrange(bytes, 1, bytes.len());
        match self.format.decode_body(version, body) {
            Some(b) => Ok(b),
            None => Err(DecodeError::Corrupt(version)),
        }
    }

    /// Writes `block` at the write version. It cannot fail.
    pub fn encode(&self, block: &F::Block) -> (payload: BlockRecord)
        ensures
            payload@ == encoded(self.format, block@),
            payload_version(payload@) == Some(self.format.spec_write_version()),
    {
        let mut bytes: Vec<u8> = Vec::new();
        bytes.push(self.format.write_version());
        let mut body = self.format.encode_body(block);
        bytes.append(&mut body);
        proof {
            assert(bytes@ =~= encoded(self.format, block@));
        }
        BlockRecord::new(bytes)
    }

    /// Decodes `payload` and encodes the block again.
    pub fn recompress(&self, payload: &BlockRecord) -> (out: Result<BlockRecord, DecodeError>)
        ensures
            match out {
                Ok(r) => recompressed(self.format, payload@) == Ok::<_, DecodeError>(r@),
                Err(e) => recompressed(self.format, payload@) == Err::<Seq<u8>, _>(e),
            },
    {
        match self.decode(payload) {
            Ok(block) => Ok(self.encode(&block)),
            Err(e) => Err(e),
        }
    }
}

/// A payload as written decodes to the block it was written for.
pub proof fn lemma_decode_encoded<F: BlockFormat>(format: F, block: <F::Block as View>::V)
    ensures
        decoded(format, encoded(format, block)) == Ok::<_, DecodeError>(block),
{
    format.lemma_round_trip(block);
    let p = encoded(format, block);
    assert(p.len() > 0);
    assert(p[0] == format.spec_write_version());
    assert(payload_body(p) =~= format.render(block));
}

/// Recompression keeps the content: what the new payload decodes to is what
/// the old one decoded to.
pub proof fn law_recompress_preserves_content<F: BlockFormat>(format: F, payload: Seq<u8>)
    requires
        decoded(format, payload) is Ok,
    ensures
        recompressed(format, payload) is Ok,
        decoded(format, recompressed(format, payload)->Ok_0) == decoded(format, payload),
{
    lemma_decode_encoded(format, decoded(format, payload)->Ok_0);
}

/// Recompression always writes the highest version, whatever version it read.
pub proof fn law_recompress_writes_highest<F: BlockFormat>(format: F, payload: Seq<u8>)
    requires
        recompressed(format, payload) is Ok,
    ensures
        payload_version(recompressed(format, payload)->Ok_0) == Some(format.spec_write_version()),
{
    let block = decoded(format, payload)->Ok_0;
    assert(encoded(format, block)[0] == format.spec_write_version());
}

/// A payload that recompression wrote is its own canonical form: recompressing
/// it again gives it back byte for byte.
pub proof fn law_recompress_idempotent<F: BlockFormat>(format: F, payload: Seq<u8>)
    requires
        recompressed(format, payload) is Ok,
    ensures
        recompressed(format, recompressed(format, payload)->Ok_0) == recompressed(
            format,
            payload,
        ),
{
    lemma_decode_encoded(format, decoded(format, payload)->Ok_0);
}

/// A payload already in canonical form at the write version, that is one the
/// encoder wrote, comes out of recompression unchanged.
pub proof fn law_recompress_canonical<F: BlockFormat>(format: F, block: <F::Block as View>::V)
    ensures
        recompressed(format, encoded(format, block)) == Ok::<_, DecodeError>(
            encoded(format, block),
        ),
{
    lemma_decode_encoded(format, block);
}

} // verus!
