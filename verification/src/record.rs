use vstd::prelude::*;

verus! {

/// Stored bytes of one map block. The library never looks inside them, except
/// for the leading byte, which names the serialization version of the rest.
#[derive(Debug)]
pub struct BlockRecord {
    pub bytes: Vec<u8>,
}

impl View for BlockRecord {
    type V = Seq<u8>;

    open spec fn view(&self) -> Seq<u8> {
        self.bytes@
    }
}

/// Version tag of a payload: its first byte, if it has one.
pub open spec fn payload_version(payload: Seq<u8>) -> Option<u8> {
    if payload.len() == 0 {
        None
    } else {
        Some(payload[0])
    }
}

/// What follows the version tag.
pub open spec fn payload_body(payload: Seq<u8>) -> Seq<u8> {
    if payload.len() == 0 {
        payload
    } else {
        payload.subrange(1, payload.len() as int)
    }
}

impl BlockRecord {
    /// The record of these bytes.
    pub fn new(bytes: Vec<u8>) -> (r: Self)
        ensures
            r@ == bytes@,
    {
        BlockRecord { bytes }
    }

    /// The record that a backend hands out for a coordinate it does not hold.
    pub fn empty() -> (r: Self)
        ensures
            r@ == Seq::<u8>::empty(),
    {
        BlockRecord { bytes: Vec::new() }
    }

    /// Whether the record holds no byte: whether the block could not be loaded.
    pub fn is_empty(&self) -> (b: bool)
        ensures
            b == (self@.len() == 0),
    {
        self.bytes.len() == 0
    }

    /// How many bytes the record holds.
    pub fn len(&self) -> (n: usize)
        ensures
            n == self@.len(),
    {
        self.bytes.len()
    }

    /// The bytes of the record.
    pub fn as_bytes(&self) -> (s: &[u8])
        ensures
            s@ == self@,
    {
        self.bytes.as_slice()
    }

    /// Gives the bytes up.
    pub fn into_bytes(self) -> (v: Vec<u8>)
        ensures
            v@ == self@,
    {
        self.bytes
    }

    /// The version tag: the first byte, if there is one.
    pub fn version(&self) -> (v: Option<u8>)
        ensures
            v == payload_version(self@),
    {
        if self.bytes.len() == 0 {
            None
        } else {
            Some(self.bytes[0])
        }
    }

    /// A record of its own with the same bytes.
    pub fn duplicate(&self) -> (r: Self)
        ensures
            r@ == self@,
    {
        BlockRecord { bytes: copy_bytes(self.bytes.as_slice()) }
    }
}

/// A fresh vector with the bytes of `src`.
pub fn copy_bytes(src: &[u8]) -> (out: Vec<u8>)
    ensures
        out@ == src@,
{
    let mut out: Vec<u8> = Vec::new();
    let mut i: usize = 0;
    while i < src.len()
        invariant
            i <= src.len(),
            out@ == src@.subrange(0, i as int),
        decreases src.len() - i,
    {
        out.push(src[i]);
        proof {
            assert(out@ =~= src@.subrange(0, i + 1));
        }
        i += 1;
    }
    proof {
        assert(src@.subrange(0, src.len() as int) =~= src@);
    }
    out
}

} // verus!
