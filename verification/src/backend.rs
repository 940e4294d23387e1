use vstd::prelude::*;
use crate::coord::BlockCoordinate;
use crate::error::MigrationError;
use crate::metadata::WorldMetadata;
use crate::record::BlockRecord;

verus! {

/// Content of a store: the payload kept under each coordinate.
pub type Content = Map<BlockCoordinate, Seq<u8>>;

/// Abstract state of a storage backend.
///
/// `durable` is what survives when the handle is released. `current` is what
/// reads see: the durable content with the writes of the open transaction, if
/// there is one, laid over it.
pub struct StoreView {
    pub durable: Content,
    pub current: Content,
    pub in_transaction: bool,
}

impl StoreView {
    /// Outside a transaction nothing is pending, and only finitely many
    /// coordinates are held.
    pub open spec fn valid(self) -> bool {
        &&& self.current.dom().finite()
        &&& self.durable.dom().finite()
        &&& !self.in_transaction ==> self.current == self.durable
    }

    /// State after a write of `payload` under `coord`.
    pub open spec fn after_save(self, coord: BlockCoordinate, payload: Seq<u8>) -> StoreView {
        StoreView {
            durable: if self.in_transaction {
                self.durable
            } else {
                self.durable.insert(coord, payload)
            },
            current: self.current.insert(coord, payload),
            in_transaction: self.in_transaction,
        }
    }

    /// State after a transaction was opened.
    pub open spec fn after_begin(self) -> StoreView {
        StoreView { durable: self.durable, current: self.current, in_transaction: true }
    }

    /// State after the open transaction was committed.
    pub open spec fn after_end(self) -> StoreView {
        StoreView { durable: self.current, current: self.current, in_transaction: false }
    }

    /// State after the store was released: the writes of a transaction that
    /// was never committed are gone, and no transaction is open.
    pub open spec fn after_release(self) -> StoreView {
        StoreView { durable: self.durable, current: self.durable, in_transaction: false }
    }
}

/// What a read of `coord` yields from `content`: the payload kept there, or
/// nothing at all.
pub open spec fn payload_at(content: Content, coord: BlockCoordinate) -> Seq<u8> {
    if content.contains_key(coord) {
        content[coord]
    } else {
        Seq::empty()
    }
}

/// A key/value engine that keeps map blocks under their coordinates.
///
/// The drivers work against this interface alone. An implementation promises
/// that each method changes the abstract state as stated here.
pub trait StorageBackend: Sized {
    spec fn view(&self) -> StoreView;

    /// Implementation invariant; it implies that the abstract state is valid.
    spec fn wf(&self) -> bool;

    proof fn lemma_wf_valid(&self)
        requires
            self.wf(),
        ensures
            self@.valid(),
    ;

    /// Opens the store of the world that lies at `location` and has the
    /// metadata `metadata`. Whether that succeeds is for the storage to say;
    /// a handle that is handed out is whole, with no transaction open.
    fn open(location: &str, metadata: &WorldMetadata) -> (handle: Result<Self, MigrationError>)
        ensures
            match handle {
                Ok(h) => h.wf() && !h@.in_transaction,
                Err(e) => e == MigrationError::BackendOpen,
            },
    ;

    /// The coordinates currently held, each once, without their payloads.
    fn list_all_loadable_keys(&self) -> (keys: Vec<BlockCoordinate>)
        requires
            self.wf(),
        ensures
            keys@.no_duplicates(),
            keys@.to_set() == self@.current.dom(),
    ;

    /// The payload under `coord`; empty where the store holds none.
    fn load(&self, coord: BlockCoordinate) -> (record: BlockRecord)
        requires
            self.wf(),
        ensures
            record@ == payload_at(self@.current, coord),
    ;

    /// Writes `record` under `coord`. Inside a transaction the write is
    /// staged; outside it is durable at once.
    fn save(&mut self, coord: BlockCoordinate, record: &BlockRecord)
        requires
            old(self).wf(),
        ensures
            final(self).wf(),
            final(self)@ == old(self)@.after_save(coord, record@),
    ;

    /// Opens a transaction; does nothing where one is open.
    fn begin_transaction(&mut self)
        requires
            old(self).wf(),
        ensures
            final(self).wf(),
            final(self)@ == old(self)@.after_begin(),
    ;

    /// Commits the open transaction: all that was staged becomes durable.
    fn end_transaction(&mut self)
        requires
            old(self).wf(),
        ensures
            final(self).wf(),
            final(self)@ == old(self)@.after_end(),
    ;

    /// Releases the store at the end of a run: a transaction that is still
    /// open is given up with all that was staged in it, and what is durable
    /// stays. Does nothing where no transaction is open.
    fn release(&mut self)
        requires
            old(self).wf(),
        ensures
            final(self).wf(),
            final(self)@ == old(self)@.after_release(),
    ;
}

} // verus!
