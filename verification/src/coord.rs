use vstd::prelude::*;

verus! {

/// Position of one map block: the key under which a storage backend keeps it.
#[derive(Clone, Copy, Debug, PartialEq, Eq, Structural, Hash)]
pub struct BlockCoordinate {
    pub x: i16,
    pub y: i16,
    pub z: i16,
}

impl BlockCoordinate {
    /// The coordinate with these three parts.
    pub fn new(x: i16, y: i16, z: i16) -> (c: Self)
        ensures
            c.x == x,
            c.y == y,
            c.z == z,
    {
        BlockCoordinate { x, y, z }
    }
}

/// The least part of a coordinate that an engine with integer keys can keep.
pub const MIN_KEYED: i16 = -2048;

/// The greatest part of a coordinate that an engine with integer keys can
/// keep.
pub const MAX_KEYED: i16 = 2047;

/// The integer under which an engine with integer keys keeps the block at
/// `c`: twelve bits for each part, `z` highest.
pub open spec fn key_of(c: BlockCoordinate) -> int {
    c.z * 0x100_0000 + c.y * 0x1000 + c.x
}

/// Whether each part of `c` fits in the twelve bits that a key has for it.
pub open spec fn fits_key(c: BlockCoordinate) -> bool {
    &&& MIN_KEYED <= c.x <= MAX_KEYED
    &&& MIN_KEYED <= c.y <= MAX_KEYED
    &&& MIN_KEYED <= c.z <= MAX_KEYED
}

/// Coordinates that fit have keys of their own: no two share one.
pub proof fn law_keys_are_unique(a: BlockCoordinate, b: BlockCoordinate)
    requires
        fits_key(a),
        fits_key(b),
        key_of(a) == key_of(b),
    ensures
        a == b,
{
}

impl BlockCoordinate {
    /// The integer under which an engine with integer keys keeps the block.
    pub fn block_as_integer(self) -> (key: i64)
        ensures
            key == key_of(self),
    {
        let z: i64 = self.z as i64;
        let y: i64 = self.y as i64;
        let x: i64 = self.x as i64;
        z * 0x100_0000 + y * 0x1000 + x
    }

    /// The coordinate that is kept under `key`: the one whose parts fit and
    /// whose key it is. None where it is the key of no such coordinate.
    pub fn integer_as_block(key: i64) -> (coord: Option<BlockCoordinate>)
        ensures
            match coord {
                Some(c) => fits_key(c) && key_of(c) == key,
                None => forall|c: BlockCoordinate| fits_key(c) ==> key_of(c) != key,
            },
    {
        // With each part moved up by 2048 the key is a number of three
        // digits to the base 4096.
        let shift: i64 = 2048 * 0x100_0000 + 2048 * 0x1000 + 2048;
        if key < -shift || key > 0xf_ffff_ffff - shift {
            return None;
        }
        let moved: i64 = key + shift;
        let x: i64 = moved % 0x1000 - 2048;
        let y: i64 = (moved / 0x1000) % 0x1000 - 2048;
        let z: i64 = moved / 0x100_0000 - 2048;
        Some(BlockCoordinate { x: x as i16, y: y as i16, z: z as i16 })
    }
}

/// A coordinate that fits is found again under its key.
pub proof fn law_key_round_trip(c: BlockCoordinate, found: Option<BlockCoordinate>)
    requires
        fits_key(c),
        match found {
            Some(d) => fits_key(d) && key_of(d) == key_of(c),
            None => forall|d: BlockCoordinate| fits_key(d) ==> key_of(d) != key_of(c),
        },
    ensures
        found == Some(c),
{
    match found {
        Some(d) => {
            law_keys_are_unique(c, d);
        },
        None => {},
    }
}

} // verus!
