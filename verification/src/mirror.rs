use vstd::prelude::*;
use crate::backend::{StorageBackend, StoreView};
use crate::coord::BlockCoordinate;
use crate::error::MigrationError;
use crate::memory::MemoryBackend;
use crate::metadata::WorldMetadata;
use crate::record::BlockRecord;

verus! {

/// A storage engine as a program links it: a database on disk, a server.
/// Nothing is asked of an implementation but that each call return, and
/// nothing is believed of what it answers.
pub trait RawStore: Sized {
    /// Opens the store of the world at `location`; none where it cannot be
    /// opened.
    fn open_raw(location: &str, metadata: &WorldMetadata) -> Option<Self>;

    /// The coordinates that the engine holds.
    fn list_raw(&mut self) -> Vec<BlockCoordinate>;

    /// The payload that the engine holds under `coord`.
    fn load_raw(&mut self, coord: BlockCoordinate) -> Vec<u8>;

    fn save_raw(&mut self, coord: BlockCoordinate, payload: &[u8]);

    fn begin_raw(&mut self);

    fn commit_raw(&mut self);

    /// Gives up the transaction that is open, if one is.
    fn rollback_raw(&mut self);
}

/// A backend in front of a storage engine.
///
/// It keeps in memory all that it read from the engine when it was opened,
/// answers every read from there, and hands every write and every
/// transaction on to the engine. Its contract is therefore that of the store
/// in memory and is proved as such: what the engine makes of what it is
/// handed is the engine's own affair.
pub struct MirroredBackend<R: RawStore> {
    pub raw: R,
    pub mirror: MemoryBackend,
}

impl<R: RawStore> MirroredBackend<R> {
    /// Gives the engine back.
    pub fn into_raw(self) -> (raw: R)
        ensures
            raw == self.raw,
    {
        self.raw
    }
}

impl<R: RawStore> StorageBackend for MirroredBackend<R> {
    open spec fn view(&self) -> StoreView {
        self.mirror@
    }

    open spec fn wf(&self) -> bool {
        self.mirror.wf()
    }

    proof fn lemma_wf_valid(&self) {
        self.mirror.lemma_wf_valid();
    }

    /// Opens the engine and reads all that it holds. Whether the engine can
    /// be opened is for the engine to say.
    fn open(location: &str, metadata: &WorldMetadata) -> (handle: Result<Self, MigrationError>) {
        let mut raw = match R::open_raw(location, metadata) {
            Some(raw) => raw,
            None => {
                return Err(MigrationError::BackendOpen);
            },
        };
        let mut mirror = MemoryBackend::new();
        let keys = raw.list_raw();
        let mut i: usize = 0;
        while i < keys.len()
            invariant
                i <= keys.len(),
                mirror.wf(),
                !mirror@.in_transaction,
            decreases keys.len() - i,
        {
            let payload = raw.load_raw(keys[i]);
            mirror.save(keys[i], &BlockRecord::new(payload));
            i += 1;
        }
        Ok(MirroredBackend { raw, mirror })
    }

    fn list_all_loadable_keys(&self) -> (keys: Vec<BlockCoordinate>) {
        self.mirror.list_all_loadable_keys()
    }

    fn load(&self, coord: BlockCoordinate) -> (record: BlockRecord) {
        self.mirror.load(coord)
    }

    fn save(&mut self, coord: BlockCoordinate, record: &BlockRecord) {
        self.raw.save_raw(coord, record.as_bytes());
        self.mirror.save(coord, record);
    }

    fn begin_transaction(&mut self) {
        if !self.mirror.in_transaction() {
            self.raw.begin_raw();
        }
        self.mirror.begin_transaction();
    }

    fn end_transaction(&mut self) {
        if self.mirror.in_transaction() {
            self.raw.commit_raw();
        }
        self.mirror.end_transaction();
    }

    fn release(&mut self) {
        if self.mirror.in_transaction() {
            self.raw.rollback_raw();
        }
        self.mirror.release();
    }
}

} // verus!
