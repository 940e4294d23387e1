use vstd::prelude::*;
use crate::coord::BlockCoordinate;

verus! {

/// Why a request was refused before any store was touched.
#[derive(Clone, Copy, Debug, PartialEq, Eq, Structural)]
pub enum ConfigurationError {
    /// The world's metadata names no backend.
    MissingBackend,
    /// The backend asked for is the one the world already uses.
    SameBackend,
    /// An identifier names no backend that the factory knows.
    UnknownBackend,
}

/// Why the bytes of a block could not be read as a block.
#[derive(Clone, Copy, Debug, PartialEq, Eq, Structural)]
pub enum DecodeError {
    /// There is not even a version tag.
    Empty,
    /// The version tag is none that the codec reads.
    UnknownVersion(u8),
    /// The tag is known, but what follows it is no block of that version.
    Corrupt(u8),
}

/// Every way in which a run can go wrong.
#[derive(Clone, Copy, Debug, PartialEq, Eq, Structural)]
pub enum MigrationError {
    /// The request was refused before any store was touched.
    Configuration(ConfigurationError),
    /// The underlying storage could not be opened.
    BackendOpen,
    /// The store lists the coordinate but yields no payload for it.
    BlockLoad(BlockCoordinate),
    /// The payload under the coordinate could not be decoded.
    BlockDecode(BlockCoordinate, DecodeError),
    /// The world's metadata could not be persisted after the blocks were.
    MetadataWrite,
}

impl MigrationError {
    /// Whether a run must stop on this error. Only a metadata record that
    /// could not be written leaves the run's outcome as it is. A block
    /// without payload is an error only in a run that does not pass such
    /// blocks over.
    pub open spec fn spec_is_fatal(self) -> bool {
        !(self is MetadataWrite)
    }

    /// Whether a run must stop on this error.
    #[verifier::when_used_as_spec(spec_is_fatal)]
    pub fn is_fatal(self) -> (b: bool)
        ensures
            b == self.spec_is_fatal(),
    {
        match self {
            MigrationError::MetadataWrite => false,
            _ => true,
        }
    }
}

} // verus!
